//! Remembered secrets: the password or passphrase of each server profile, kept only in an
//! encrypted file.
use crate::crypto;
use crate::text;
use crate::text_map;
use crate::text_map::TextMap;
use vstd::prelude::*;

verus! {

/// The file of the secrets.
pub const ENC_FILE: &'static str = "secrets.enc";

/// The file of their key.
pub const KEY_FILE: &'static str = "secrets.key";

/// The magic number of the file: `PTSR1`.
pub const MAGIC: [u8; 5] = [0x50, 0x54, 0x53, 0x52, 0x31];

/// The secret of each profile that has one.
pub struct SecretStore {
    secrets: TextMap<String>,
}

impl View for SecretStore {
    type V = Map<Seq<char>, Seq<char>>;

    closed spec fn view(&self) -> Map<Seq<char>, Seq<char>> {
        self.secrets@.map_values(|s: String| s@)
    }
}

impl SecretStore {
    /// The representation's invariant.
    pub closed spec fn wf(&self) -> bool {
        self.secrets.wf()
    }

    /// The profiles in dictionary order.
    pub closed spec fn order(&self) -> Seq<Seq<char>> {
        self.secrets.items().map_values(|e: (Seq<char>, String)| e.0)
    }

    /// Remembers a secret, in place of the one there was.
    pub fn set(&mut self, profile_id: &str, secret: &str)
        requires
            old(self).wf(),
        ensures
            final(self).wf(),
            final(self)@ == old(self)@.insert(profile_id@, secret@),
    {
        let s = secret.to_owned();
        self.secrets.insert(profile_id.to_owned(), s);
        assert(self@ =~= old(self)@.insert(profile_id@, secret@));
    }

    /// The secret of a profile.
    pub fn get(&self, profile_id: &str) -> (r: Option<&str>)
        requires
            self.wf(),
        ensures
            match r {
                Some(s) => self@.dom().contains(profile_id@) && self@[profile_id@] == s@,
                None => !self@.dom().contains(profile_id@),
            },
    {
        match self.secrets.get(profile_id) {
            Some(s) => Some(s.as_str()),
            None => None,
        }
    }

    /// Forgets a secret; harmless where there is none.
    pub fn remove(&mut self, profile_id: &str)
        requires
            old(self).wf(),
        ensures
            final(self).wf(),
            final(self)@ == old(self)@.remove(profile_id@),
    {
        let _ = self.secrets.remove(profile_id);
        assert(self@ =~= old(self)@.remove(profile_id@));
    }

    /// Whether a profile's secret is remembered.
    pub fn contains(&self, profile_id: &str) -> (r: bool)
        requires
            self.wf(),
        ensures
            r == self@.dom().contains(profile_id@),
    {
        self.secrets.contains_key(profile_id)
    }

    /// The profiles whose secrets are remembered, in dictionary order.
    pub fn profiles(&self) -> (r: Vec<String>)
        requires
            self.wf(),
        ensures
            text::texts(r@) == self.order(),
            forall|i: int, j: int|
                0 <= i < j < self.order().len() ==> text_map::precedes(
                    #[trigger] self.order()[i],
                    #[trigger] self.order()[j],
                ),
            forall|k: Seq<char>| #[trigger]
                self.order().contains(k) <==> self@.dom().contains(k),
    {
        let mut out: Vec<String> = Vec::new();
        let mut i: usize = 0;
        while i < self.secrets.len()
            invariant
                i <= self.secrets.items().len(),
                text::texts(out@) == self.order().take(i as int),
            decreases self.secrets.items().len() - i,
        {
            let (k, _) = self.secrets.at(i);
            let ghost before = out@;
            let s = k.clone();
            out.push(s);
            proof {
                text::lemma_texts_push(before, s);
                assert(self.order().take(i + 1) =~= self.order().take(i as int).push(s@));
            }
            i = i + 1;
        }
        proof {
            let items = self.secrets.items();
            assert(self.order().take(self.order().len() as int) =~= self.order());
            assert forall|a: int, b: int| 0 <= a < b < self.order().len() implies text_map::precedes(
                #[trigger] self.order()[a],
                #[trigger] self.order()[b],
            ) by {
                assert(text_map::precedes(items[a].0, items[b].0));
            }
            assert forall|k: Seq<char>| #[trigger] self.order().contains(k)
                <==> self@.dom().contains(k) by {
                if self.order().contains(k) {
                    let a = choose|a: int| 0 <= a < self.order().len() && self.order()[a] == k;
                    text_map::lemma_map_of(items, a);
                }
                if self@.dom().contains(k) {
                    let a = choose|a: int| 0 <= a < items.len() && #[trigger] items[a].0 == k;
                    assert(self.order()[a] == k);
                }
            }
        }
        out
    }
}

impl Default for SecretStore {
    fn default() -> (r: Self)
        ensures
            r.wf(),
            r@ == Map::<Seq<char>, Seq<char>>::empty(),
    {
        let r = SecretStore { secrets: TextMap::new() };
        assert(r@ =~= Map::empty());
        r
    }
}

/// The text that the file of the secrets holds, if it can be read.
pub fn load_secret_store(key: &[u8], file: &[u8]) -> (r: Option<String>)
    requires
        key@.len() == crypto::KEY_LEN,
    ensures
        match r {
            Some(s) => crypto::file_text(key@, MAGIC@, file@) == Some(s@),
            None => crypto::file_text(key@, MAGIC@, file@) is None,
        },
{
    crypto::open(key, &MAGIC, file)
}

/// The file of the secrets, with this text.
pub fn save_secret_store(key: &[u8], text: &str) -> (r: Result<Vec<u8>, String>)
    requires
        key@.len() == crypto::KEY_LEN,
    ensures
        match r {
            Ok(file) => file@.take(5) == MAGIC@ && crypto::file_text(key@, MAGIC@, file@) == Some(
                text@,
            ),
            Err(e) => {
                ||| e@ == "加密失败: aead::Error"@ && vstd::utf8::encode_utf8(text@).len()
                    > crypto::MAX_MESSAGE
                ||| exists|why: Seq<char>| e@ == "生成 nonce 失败: "@ + why
            },
        },
{
    crypto::seal(key, &MAGIC, text)
}

/// What was remembered for a profile is what is read for it, until it is forgotten, and the
/// secrets of other profiles stay as they are.
pub proof fn law_secrets_by_profile(
    m: Map<Seq<char>, Seq<char>>,
    profile: Seq<char>,
    secret: Seq<char>,
    other: Seq<char>,
)
    requires
        other != profile,
    ensures
        m.insert(profile, secret)[profile] == secret,
        !m.insert(profile, secret).remove(profile).dom().contains(profile),
        m.insert(profile, secret).dom().contains(other) == m.dom().contains(other),
        m.dom().contains(other) ==> m.insert(profile, secret)[other] == m[other],
        m.remove(profile).dom().contains(other) == m.dom().contains(other),
        m.dom().contains(other) ==> m.remove(profile)[other] == m[other],
{
}

} // verus!
