//! The server that tests and demonstrations use: from the environment, or from a local file
//! that is never shared.
use crate::text;
use crate::text::{parse_port, split_lines, strip_prefix, trim_end_matches};
use vstd::prelude::*;

verus! {

/// A server and a login.
#[derive(Debug, PartialEq, Eq)]
pub struct Creds {
    pub server: String,
    pub port: u16,
    pub user: String,
    pub pass: String,
}

/// A server and a login as mathematical values.
#[verifier::ext_equal]
pub struct CredsView {
    pub server: Seq<char>,
    pub port: u16,
    pub user: Seq<char>,
    pub pass: Seq<char>,
}

impl View for Creds {
    type V = CredsView;

    open spec fn view(&self) -> CredsView {
        CredsView { server: self.server@, port: self.port, user: self.user@, pass: self.pass@ }
    }
}

/// The port that a text names, and the usual one where it names none.
pub open spec fn port_or_usual(s: Option<Seq<char>>) -> u16 {
    match s {
        Some(t) => match text::port_of(t) {
            Some(p) => p,
            None => 22,
        },
        None => 22,
    }
}

/// What the last line that starts with `name` says. Carriage returns at the end of a line do
/// not count; other white space does.
pub open spec fn setting(lines: Seq<Seq<char>>, name: Seq<char>) -> Option<Seq<char>>
    decreases lines.len(),
{
    if lines.len() == 0 {
        None
    } else {
        let l = text::trimmed_end(lines.last(), '\r');
        if text::found_at(l, name, 0) {
            Some(l.skip(name.len() as int))
        } else {
            setting(lines.drop_last(), name)
        }
    }
}

/// A setting, empty where there is none.
pub open spec fn setting_or_empty(lines: Seq<Seq<char>>, name: Seq<char>) -> Seq<char> {
    match setting(lines, name) {
        Some(v) => v,
        None => seq![],
    }
}

/// What a file of settings says.
pub open spec fn file_creds(content: Seq<char>) -> CredsView {
    let lines = text::lines(content);
    CredsView {
        server: setting_or_empty(lines, "SERVER="@),
        port: port_or_usual(setting(lines, "PORT="@)),
        user: setting_or_empty(lines, "USER="@),
        pass: setting_or_empty(lines, "PASS="@),
    }
}

/// The four settings of a file stand at the start of a line, and no line has two of them.
proof fn lemma_names_apart(l: Seq<char>)
    ensures
        text::found_at(l, "SERVER="@, 0) ==> l[0] == 'S',
        text::found_at(l, "PORT="@, 0) ==> l[0] == 'P' && l[1] == 'O',
        text::found_at(l, "USER="@, 0) ==> l[0] == 'U',
        text::found_at(l, "PASS="@, 0) ==> l[0] == 'P' && l[1] == 'A',
{
    reveal_strlit("SERVER=");
    reveal_strlit("PORT=");
    reveal_strlit("USER=");
    reveal_strlit("PASS=");
    if text::found_at(l, "SERVER="@, 0) {
        assert(l.subrange(0, "SERVER="@.len() as int)[0] == l[0]);
    }
    if text::found_at(l, "PORT="@, 0) {
        assert(l.subrange(0, "PORT="@.len() as int)[0] == l[0]);
        assert(l.subrange(0, "PORT="@.len() as int)[1] == l[1]);
    }
    if text::found_at(l, "USER="@, 0) {
        assert(l.subrange(0, "USER="@.len() as int)[0] == l[0]);
    }
    if text::found_at(l, "PASS="@, 0) {
        assert(l.subrange(0, "PASS="@.len() as int)[0] == l[0]);
        assert(l.subrange(0, "PASS="@.len() as int)[1] == l[1]);
    }
}

/// Reads a file of settings. A later line wins over an earlier one, also where its port is
/// no port.
pub fn parse(content: &str) -> (r: Creds)
    ensures
        r@ == file_creds(content@),
{
    let all = split_lines(content);
    let mut server = "".to_owned();
    let mut port: Option<u16> = None;
    let mut user = "".to_owned();
    let mut pass = "".to_owned();
    let ghost lines = text::lines(content@);
    proof {
        reveal_strlit("");
        assert(""@ =~= Seq::empty());
        assert(lines.take(0) =~= Seq::empty());
    }
    let mut i: usize = 0;
    while i < all.len()
        invariant
            i <= all.len(),
            text::texts(all@) == lines,
            server@ == setting_or_empty(lines.take(i as int), "SERVER="@),
            user@ == setting_or_empty(lines.take(i as int), "USER="@),
            pass@ == setting_or_empty(lines.take(i as int), "PASS="@),
            port_or_usual(setting(lines.take(i as int), "PORT="@)) == match port {
                Some(p) => p,
                None => 22,
            },
        decreases all.len() - i,
    {
        let line = trim_end_matches(all[i].as_str(), '\r');
        proof {
            assert(lines[i as int] == all@[i as int]@);
            assert(lines.take(i + 1).drop_last() =~= lines.take(i as int));
            assert(lines.take(i + 1).last() == lines[i as int]);
            lemma_names_apart(line@);
        }
        if let Some(v) = strip_prefix(line, "SERVER=") {
            server = v.to_owned();
        } else if let Some(v) = strip_prefix(line, "PORT=") {
            port = parse_port(v);
        } else if let Some(v) = strip_prefix(line, "USER=") {
            user = v.to_owned();
        } else if let Some(v) = strip_prefix(line, "PASS=") {
            pass = v.to_owned();
        }
        i = i + 1;
    }
    assert(lines.take(lines.len() as int) =~= lines);
    Creds {
        server,
        port: match port {
            Some(p) => p,
            None => 22,
        },
        user,
        pass,
    }
}

/// What the environment says: a login, where server, user and password are all set.
pub fn from_env(
    server: Option<String>,
    user: Option<String>,
    pass: Option<String>,
    port: Option<String>,
) -> (r: Option<Creds>)
    ensures
        match r {
            Some(c) => server == Some(c.server) && user == Some(c.user) && pass == Some(c.pass)
                && c.port == port_or_usual(text::maybe(port)),
            None => server is None || user is None || pass is None,
        },
{
    match (server, user, pass) {
        (Some(server), Some(user), Some(pass)) => {
            let port = match port {
                Some(p) => match parse_port(p.as_str()) {
                    Some(p) => p,
                    None => 22,
                },
                None => 22,
            };
            Some(Creds { server, port, user, pass })
        },
        _ => None,
    }
}

/// The login to use: that of the environment, or else that of the file; none where there is
/// neither.
pub fn load(env: Option<Creds>, file: Option<&str>) -> (r: Option<Creds>)
    ensures
        match env {
            Some(c) => r == Some(c),
            None => match file {
                Some(t) => r matches Some(c) && c@ == file_creds(t@),
                None => r is None,
            },
        },
{
    match env {
        Some(c) => Some(c),
        None => match file {
            Some(t) => Some(parse(t)),
            None => None,
        },
    }
}

/// The password of a login.
pub fn pass(c: &Creds) -> (r: &str)
    ensures
        r@ == c.pass@,
{
    c.pass.as_str()
}

// ---------------------------------------------------------------- laws
/// The last line with a setting is what the setting says: all that stands behind its name, but
/// for carriage returns at the end. A line without it changes nothing.
pub proof fn law_last_setting_counts(lines: Seq<Seq<char>>, l: Seq<char>, name: Seq<char>)
    ensures
        setting(Seq::empty(), name) is None,
        name.is_prefix_of(text::trimmed_end(l, '\r')) ==> setting(lines.push(l), name) == Some(
            text::trimmed_end(l, '\r').skip(name.len() as int),
        ),
        !name.is_prefix_of(text::trimmed_end(l, '\r')) ==> setting(lines.push(l), name) == setting(
            lines,
            name,
        ),
{
    let t = text::trimmed_end(l, '\r');
    assert(lines.push(l).drop_last() =~= lines);
    assert(lines.push(l).last() == l);
    assert(t.subrange(0, name.len() as int) =~= t.take(name.len() as int) || name.len() > t.len());
}

/// What a file of settings says, setting by setting: each is what the last line with its name
/// says, empty where there is none, and the port is 22 where none is named.
pub proof fn law_file_settings(content: Seq<char>, v: Seq<char>)
    requires
        !v.contains('\n'),
        v.len() == 0 || v.last() != '\r',
    ensures
        file_creds(content + "\nSERVER="@ + v) == (CredsView { server: v, ..file_creds(content) }),
        file_creds(content + "\nUSER="@ + v) == (CredsView { user: v, ..file_creds(content) }),
        file_creds(content + "\nPASS="@ + v) == (CredsView { pass: v, ..file_creds(content) }),
        file_creds(content + "\nPORT="@ + v) == (CredsView {
            port: match text::port_of(v) {
                Some(p) => p,
                None => 22,
            },
            ..file_creds(content)
        }),
        file_creds(Seq::empty()) == (CredsView {
            server: seq![],
            port: 22,
            user: seq![],
            pass: seq![],
        }),
{
    reveal_strlit("\nSERVER=");
    reveal_strlit("\nUSER=");
    reveal_strlit("\nPASS=");
    reveal_strlit("\nPORT=");
    reveal_strlit("SERVER=");
    reveal_strlit("USER=");
    reveal_strlit("PASS=");
    reveal_strlit("PORT=");
    assert("\nSERVER="@ =~= seq!['\n'] + "SERVER="@);
    assert("\nUSER="@ =~= seq!['\n'] + "USER="@);
    assert("\nPASS="@ =~= seq!['\n'] + "PASS="@);
    assert("\nPORT="@ =~= seq!['\n'] + "PORT="@);
    assert(!"SERVER="@.contains('\n') && !"USER="@.contains('\n') && !"PASS="@.contains('\n')
        && !"PORT="@.contains('\n'));
    lemma_one_more_line(content, "SERVER="@, v);
    lemma_one_more_line(content, "USER="@, v);
    lemma_one_more_line(content, "PASS="@, v);
    lemma_one_more_line(content, "PORT="@, v);
    assert(content + "\nSERVER="@ + v =~= content + seq!['\n'] + ("SERVER="@ + v));
    assert(content + "\nUSER="@ + v =~= content + seq!['\n'] + ("USER="@ + v));
    assert(content + "\nPASS="@ + v =~= content + seq!['\n'] + ("PASS="@ + v));
    assert(content + "\nPORT="@ + v =~= content + seq!['\n'] + ("PORT="@ + v));
    lemma_names_apart("SERVER="@ + v);
    lemma_names_apart("USER="@ + v);
    lemma_names_apart("PASS="@ + v);
    lemma_names_apart("PORT="@ + v);
    assert(("SERVER="@ + v)[0] == 'S' && ("USER="@ + v)[0] == 'U');
    assert(("PASS="@ + v)[1] == 'A' && ("PORT="@ + v)[1] == 'O');
    assert(("PASS="@ + v)[0] == 'P' && ("PORT="@ + v)[0] == 'P');
    let none = Seq::<Seq<char>>::empty();
    text::law_lines(Seq::empty(), Seq::empty());
    let first = seq![Seq::<char>::empty()];
    assert(first =~= none.push(Seq::empty()));
    text::law_trimming_the_end(Seq::empty(), '\r');
    law_last_setting_counts(none, Seq::empty(), "SERVER="@);
    law_last_setting_counts(none, Seq::empty(), "USER="@);
    law_last_setting_counts(none, Seq::empty(), "PASS="@);
    law_last_setting_counts(none, Seq::empty(), "PORT="@);
}

proof fn lemma_one_more_line(content: Seq<char>, name: Seq<char>, v: Seq<char>)
    requires
        !name.contains('\n'),
        !v.contains('\n'),
        name.len() > 0,
        name.last() != '\r',
        v.len() == 0 || v.last() != '\r',
    ensures
        ({
            let now = text::lines(content + seq!['\n'] + (name + v));
            let was = text::lines(content);
            &&& setting(now, name) == Some(v)
            &&& forall|other: Seq<char>|
                !text::found_at(name + v, other, 0) ==> #[trigger] setting(now, other) == setting(
                    was,
                    other,
                )
        }),
{
    let l = name + v;
    let was = text::lines(content);
    let now = text::lines(content + seq!['\n'] + l);
    if l.contains('\n') {
        let i = choose|i: int| 0 <= i < l.len() && l[i] == '\n';
        if i < name.len() {
            assert(name[i] == '\n');
        } else {
            assert(v[i - name.len()] == '\n');
        }
    }
    text::law_lines(content, l);
    text::law_lines(l, Seq::empty());
    assert(now =~= was.push(l));
    assert(l.last() == if v.len() > 0 {
        v.last()
    } else {
        name.last()
    });
    text::law_trimming_the_end(l, '\r');
    assert(l.take(name.len() as int) =~= name);
    assert(l.skip(name.len() as int) =~= v);
    law_last_setting_counts(was, l, name);
    assert forall|other: Seq<char>| !text::found_at(l, other, 0) implies #[trigger] setting(
        now,
        other,
    ) == setting(was, other) by {
        assert(now.drop_last() =~= was);
        assert(now.last() == l);
    }
}

/// Credentials are what their fields say: the server, its port, the login's name and its
/// password.
pub proof fn law_credentials_are_their_fields(c: Creds)
    ensures
        c@.server == c.server@,
        c@.port == c.port,
        c@.user == c.user@,
        c@.pass == c.pass@,
{
}

} // verus!
