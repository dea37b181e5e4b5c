//! The user's own commands of the command page, kept only in an encrypted file.
use crate::crypto;
use crate::keyed;
use crate::keyed::{remove_id, upsert, Keyed};
use crate::model;
use crate::model::TunnelSpec;
use crate::secrets;
use crate::text;
use crate::text::is_blank;
use vstd::prelude::*;

verus! {

/// The file of the commands.
pub const ENC_FILE: &'static str = "cmd_recipes.enc";

/// The file of their key.
pub const KEY_FILE: &'static str = "cmd_recipes.key";

/// The magic number of the file: `PTCR1`.
pub const MAGIC: [u8; 5] = [0x50, 0x54, 0x43, 0x52, 0x31];

/// One filled-in form of the command page.
#[derive(Debug, PartialEq, Eq)]
pub struct CmdParams {
    /// The shape of tunnel: local, reverse or dynamic.
    pub kind: String,
    /// The server.
    pub host: String,
    pub port: u16,
    pub user: String,
    /// The port to listen on.
    pub listen: u16,
    pub target_host: String,
    pub target_port: u16,
    /// Listen on all addresses.
    pub bind_all: bool,
}

impl Default for CmdParams {
    fn default() -> (r: Self)
        ensures
            r.kind@ == Seq::<char>::empty(),
            r.host@ == Seq::<char>::empty(),
            r.port == 0,
            r.user@ == Seq::<char>::empty(),
            r.listen == 0,
            r.target_host@ == Seq::<char>::empty(),
            r.target_port == 0,
            !r.bind_all,
    {
        CmdParams {
            kind: String::new(),
            host: String::new(),
            port: 0,
            user: String::new(),
            listen: 0,
            target_host: String::new(),
            target_port: 0,
            bind_all: false,
        }
    }
}

impl Clone for CmdParams {
    fn clone(&self) -> (r: Self)
        ensures
            r == *self,
    {
        CmdParams {
            kind: self.kind.clone(),
            host: self.host.clone(),
            port: self.port,
            user: self.user.clone(),
            listen: self.listen,
            target_host: self.target_host.clone(),
            target_port: self.target_port,
            bind_all: self.bind_all,
        }
    }
}

/// A command that the user saved under a name.
#[derive(Debug, PartialEq, Eq)]
pub struct CmdRecipe {
    /// A UUID; blank for one that was never saved.
    pub id: String,
    pub name: String,
    pub params: CmdParams,
}

impl Clone for CmdRecipe {
    fn clone(&self) -> (r: Self)
        ensures
            r == *self,
    {
        CmdRecipe { id: self.id.clone(), name: self.name.clone(), params: self.params.clone() }
    }
}

impl Keyed for CmdRecipe {
    open spec fn key(&self) -> Seq<char> {
        self.id@
    }

    fn id(&self) -> (r: &str) {
        self.id.as_str()
    }
}

/// What the command page keeps: the user's commands, and the form as it was last.
#[derive(Debug, PartialEq, Eq)]
pub struct CmdRecipeStore {
    pub recipes: Vec<CmdRecipe>,
    pub last: Option<CmdParams>,
}

impl Default for CmdRecipeStore {
    fn default() -> (r: Self)
        ensures
            r.recipes@ == Seq::<CmdRecipe>::empty(),
            r.last is None,
    {
        CmdRecipeStore { recipes: Vec::new(), last: None }
    }
}

impl CmdRecipeStore {
    /// Saves a command. It must have a name; one without an id gets a new one.
    pub fn save(&mut self, recipe: CmdRecipe) -> (r: Result<(), String>)
        ensures
            final(self).last == old(self).last,
            match r {
                Ok(_) => !text::blank(recipe.name@) && if text::blank(recipe.id@) {
                    exists|id: String| #[trigger]
                        model::is_uuid_v4(id@) && final(self).recipes@ == keyed::upserted(
                            old(self).recipes@,
                            (CmdRecipe { id, ..recipe }),
                        )
                } else {
                    final(self).recipes@ == keyed::upserted(old(self).recipes@, recipe)
                },
                Err(e) => text::blank(recipe.name@) && e@ == "命令名称不能为空"@
                    && final(self).recipes@ == old(self).recipes@,
            },
    {
        if is_blank(recipe.name.as_str()) {
            return Err("命令名称不能为空".to_owned());
        }
        let mut recipe = recipe;
        if is_blank(recipe.id.as_str()) {
            let id = TunnelSpec::new_id();
            assert(model::is_uuid_v4(id@));
            recipe.id = id;
        }
        upsert(&mut self.recipes, recipe);
        Ok(())
    }

    /// Deletes a command.
    pub fn delete(&mut self, id: &str)
        ensures
            final(self).last == old(self).last,
            final(self).recipes@ == keyed::without(old(self).recipes@, id@),
    {
        remove_id(&mut self.recipes, id);
    }

    /// Keeps the form as it is now.
    pub fn set_last(&mut self, params: CmdParams)
        ensures
            final(self).last == Some(params),
            final(self).recipes == old(self).recipes,
    {
        self.last = Some(params);
    }
}

/// The text that the file of the commands holds, if it can be read.
pub fn load_cmd_store(key: &[u8], file: &[u8]) -> (r: Option<String>)
    requires
        key@.len() == crypto::KEY_LEN,
    ensures
        match r {
            Some(s) => crypto::file_text(key@, MAGIC@, file@) == Some(s@),
            None => crypto::file_text(key@, MAGIC@, file@) is None,
        },
{
    crypto::open(key, &MAGIC, file)
}

/// The file of the commands, with this text.
pub fn save_cmd_store(key: &[u8], text: &str) -> (r: Result<Vec<u8>, String>)
    requires
        key@.len() == crypto::KEY_LEN,
    ensures
        match r {
            Ok(file) => file@.take(5) == MAGIC@ && crypto::file_text(key@, MAGIC@, file@) == Some(
                text@,
            ),
            Err(e) => {
                ||| e@ == "加密失败: aead::Error"@ && vstd::utf8::encode_utf8(text@).len()
                    > crypto::MAX_MESSAGE
                ||| exists|why: Seq<char>| e@ == "生成 nonce 失败: "@ + why
            },
        },
{
    crypto::seal(key, &MAGIC, text)
}

/// The file of the secrets never reads as one of commands, nor the other way round.
pub proof fn law_stores_apart(key: Seq<u8>, file: Seq<u8>)
    requires
        file.len() >= 5,
    ensures
        file.take(5) == MAGIC@ ==> crypto::file_text(key, secrets::MAGIC@, file) is None,
        file.take(5) == secrets::MAGIC@ ==> crypto::file_text(key, MAGIC@, file) is None,
{
    assert(MAGIC@[2] != secrets::MAGIC@[2]);
}

} // verus!
