//! The tunnel engine: a registry of tunnels, one task per running tunnel, and a pool of
//! shared connections.
pub mod attempt;
pub mod pool;
pub mod tunnel;

use crate::model;
use crate::model::{TunnelKind, TunnelSpec, TunnelState};
use crate::ssh::AuthMethod;
use crate::text::{decimal_text, same_text};
use crate::text;
use vstd::prelude::*;

verus! {

/// What a connection needs, handed in at every start. Secrets live in memory only.
#[derive(Debug)]
pub struct SshCreds {
    pub host: String,
    pub port: u16,
    pub username: String,
    pub auth: AuthMethod,
    /// Whether the tunnel may share its profile's connection.
    pub share: bool,
    /// The server's limit on sessions per connection.
    pub max_sessions: u32,
}

impl Clone for SshCreds {
    fn clone(&self) -> (r: Self)
        ensures
            r == *self,
    {
        SshCreds {
            host: self.host.clone(),
            port: self.port,
            username: self.username.clone(),
            auth: self.auth.clone(),
            share: self.share,
            max_sessions: self.max_sessions,
        }
    }
}

/// One tunnel of the registry.
#[derive(Debug)]
pub struct Entry {
    pub spec: TunnelSpec,
    pub state: TunnelState,
    /// The user asked the tunnel's task to stop.
    pub stop: bool,
    /// The user asked the tunnel's task to cut its wait short.
    pub retry_now: bool,
    /// The tunnel's task runs.
    pub running: bool,
}

/// The entry of a tunnel that does not run.
pub open spec fn idle_entry(spec: TunnelSpec) -> Entry {
    Entry { spec, state: TunnelState::Stopped, stop: false, retry_now: false, running: false }
}

/// The place of tunnel `id`.
pub open spec fn is_at(es: Seq<Entry>, id: Seq<char>, i: int) -> bool {
    0 <= i < es.len() && es[i].spec.id@ == id
}

/// Whether there is a tunnel `id`.
pub open spec fn listed(es: Seq<Entry>, id: Seq<char>) -> bool {
    exists|i: int| is_at(es, id, i)
}

/// The place of tunnel `id`, where there is one.
pub open spec fn place(es: Seq<Entry>, id: Seq<char>) -> int {
    choose|i: int| is_at(es, id, i)
}

/// No id occurs twice.
pub open spec fn distinct(es: Seq<Entry>) -> bool {
    forall|i: int, j: int|
        0 <= i < j < es.len() ==> (#[trigger] es[i]).spec.id@ != (#[trigger] es[j]).spec.id@
}

/// The tunnels of the entries, in their order.
pub open spec fn specs_of(es: Seq<Entry>) -> Seq<TunnelSpec> {
    es.map_values(|e: Entry| e.spec)
}

/// Puts a restored tunnel into its place: that of a tunnel with the same id, or the end.
pub open spec fn put(es: Seq<Entry>, spec: TunnelSpec) -> Seq<Entry> {
    if listed(es, spec.id@) {
        es.update(place(es, spec.id@), idle_entry(spec))
    } else {
        es.push(idle_entry(spec))
    }
}

/// Puts tunnel after tunnel.
pub open spec fn put_all(es: Seq<Entry>, specs: Seq<TunnelSpec>) -> Seq<Entry>
    decreases specs.len(),
{
    if specs.len() == 0 {
        es
    } else {
        put(put_all(es, specs.drop_last()), specs.last())
    }
}

/// The entry of tunnel `id`, where there is one.
pub open spec fn entry(es: Seq<Entry>, id: Seq<char>) -> Entry {
    es[place(es, id)]
}

/// The entries with `e` in place of that of tunnel `id`, where there is one.
pub open spec fn replaced(es: Seq<Entry>, id: Seq<char>, e: Entry) -> Seq<Entry> {
    if listed(es, id) {
        es.update(place(es, id), e)
    } else {
        es
    }
}

/// Whether `id` is a reverse tunnel.
pub open spec fn is_reverse(es: Seq<Entry>, id: Seq<char>) -> bool {
    listed(es, id) && entry(es, id).spec.kind is Reverse
}

/// The line about the port that the server listens on, and that it was kept, if it was.
pub open spec fn bound_line(port: u16, kept: bool) -> Seq<char> {
    "服务器分配端口 "@ + text::decimal(port as nat) + if kept {
        ", 已回填并保存"@
    } else {
        Seq::empty()
    }
}

/// Whether `id` is a reverse tunnel that is not known to listen on `port`.
pub open spec fn port_is_news(es: Seq<Entry>, id: Seq<char>, port: u16) -> bool {
    listed(es, id) && (entry(es, id).spec.kind matches TunnelKind::Reverse { port: p, .. } && p != port)
}

/// The entry of a reverse tunnel with another port.
pub open spec fn with_port(e: Entry, port: u16) -> Entry {
    Entry {
        spec: TunnelSpec {
            kind: TunnelKind::Reverse { bind: e.spec.kind->Reverse_bind, port },
            ..e.spec
        },
        ..e
    }
}

/// The complaint about an id that there is no tunnel for.
pub open spec fn missing(id: Seq<char>) -> Seq<char> {
    "隧道不存在: "@ + id
}

/// The entries of other profiles than `profile_id`.
pub open spec fn of_others(es: Seq<Entry>, profile_id: Seq<char>) -> Seq<Entry>
    decreases es.len(),
{
    if es.len() == 0 {
        seq![]
    } else if es.last().spec.profile_id@ == profile_id {
        of_others(es.drop_last(), profile_id)
    } else {
        of_others(es.drop_last(), profile_id).push(es.last())
    }
}

/// The entries of `profile_id`, asked to stop.
pub open spec fn stopped_of(es: Seq<Entry>, profile_id: Seq<char>) -> Seq<Entry>
    decreases es.len(),
{
    if es.len() == 0 {
        seq![]
    } else if es.last().spec.profile_id@ == profile_id {
        stopped_of(es.drop_last(), profile_id).push(Entry { stop: true, ..es.last() })
    } else {
        stopped_of(es.drop_last(), profile_id)
    }
}

/// The ids of the tunnels that start together with the application.
pub open spec fn enabled_of(es: Seq<Entry>) -> Seq<Seq<char>>
    decreases es.len(),
{
    if es.len() == 0 {
        seq![]
    } else if es.last().spec.enabled {
        enabled_of(es.drop_last()).push(es.last().spec.id@)
    } else {
        enabled_of(es.drop_last())
    }
}

/// Two places of one id are one place.
pub proof fn lemma_place(es: Seq<Entry>, id: Seq<char>, i: int)
    requires
        distinct(es),
        is_at(es, id, i),
    ensures
        listed(es, id),
        place(es, id) == i,
{
    let j = place(es, id);
    assert(is_at(es, id, j));
    if i < j {
        assert(es[i].spec.id@ != es[j].spec.id@);
    } else if j < i {
        assert(es[j].spec.id@ != es[i].spec.id@);
    }
}

proof fn lemma_same_ids(a: Seq<Entry>, b: Seq<Entry>)
    requires
        distinct(a),
        a.len() == b.len(),
        forall|i: int| 0 <= i < a.len() ==> (#[trigger] b[i]).spec.id@ == a[i].spec.id@,
    ensures
        distinct(b),
{
    assert forall|i: int, j: int| 0 <= i < j < b.len() implies (#[trigger] b[i]).spec.id@ != (
    #[trigger] b[j]).spec.id@ by {
        assert(a[i].spec.id@ != a[j].spec.id@);
    }
}

/// Putting keeps ids distinct.
pub proof fn lemma_put_distinct(es: Seq<Entry>, spec: TunnelSpec)
    requires
        distinct(es),
    ensures
        distinct(put(es, spec)),
{
    let out = put(es, spec);
    if listed(es, spec.id@) {
        assert(is_at(es, spec.id@, place(es, spec.id@)));
        lemma_same_ids(es, out);
    } else {
        assert forall|i: int, j: int| 0 <= i < j < out.len() implies (#[trigger] out[i]).spec.id@
            != (#[trigger] out[j]).spec.id@ by {
            if j == es.len() {
                assert(!is_at(es, spec.id@, i));
            }
        }
    }
}

fn missing_text(id: &str) -> (r: String)
    ensures
        r@ == missing(id@),
{
    let mut s = "隧道不存在: ".to_owned();
    s.append(id);
    s
}

/// The registry: all tunnels, in the order they were created.
pub struct Registry {
    entries: Vec<Entry>,
}

impl View for Registry {
    type V = Seq<Entry>;

    closed spec fn view(&self) -> Seq<Entry> {
        self.entries@
    }
}

impl Registry {
    /// No id occurs twice.
    pub open spec fn wf(&self) -> bool {
        distinct(self@)
    }

    /// A registry without tunnels.
    pub fn new() -> (r: Self)
        ensures
            r.wf(),
            r@ == Seq::<Entry>::empty(),
    {
        let r = Registry { entries: Vec::new() };
        assert(r@ =~= Seq::empty());
        r
    }

    fn find(&self, id: &str) -> (r: Option<usize>)
        requires
            self.wf(),
        ensures
            match r {
                Some(i) => is_at(self@, id@, i as int) && listed(self@, id@) && place(self@, id@) == i,
                None => !listed(self@, id@),
            },
    {
        let mut i: usize = 0;
        while i < self.entries.len()
            invariant
                i <= self.entries.len(),
                self.wf(),
                forall|j: int| 0 <= j < i ==> !is_at(self@, id@, j),
            decreases self.entries.len() - i,
        {
            if same_text(self.entries[i].spec.id.as_str(), id) {
                proof {
                    lemma_place(self@, id@, i as int);
                }
                return Some(i);
            }
            i = i + 1;
        }
        None
    }

    /// Replaces the entry at `i` by one of the same id.
    fn set(&mut self, i: usize, e: Entry)
        requires
            old(self).wf(),
            i < old(self)@.len(),
            e.spec.id@ == old(self)@[i as int].spec.id@,
        ensures
            final(self).wf(),
            final(self)@ == old(self)@.update(i as int, e),
    {
        let ghost before = self@;
        self.entries.set(i, e);
        proof {
            assert(self@ =~= before.update(i as int, e));
            lemma_same_ids(before, self@);
        }
    }

    /// Takes back the tunnels of an earlier run. None of them is started. Gives all tunnels.
    pub fn restore(&mut self, specs: &Vec<TunnelSpec>) -> (r: Vec<TunnelSpec>)
        requires
            old(self).wf(),
        ensures
            final(self).wf(),
            final(self)@ == put_all(old(self)@, specs@),
            r@ == specs_of(final(self)@),
    {
        let ghost before = self@;
        let mut i: usize = 0;
        assert(specs@.take(0) =~= Seq::empty());
        while i < specs.len()
            invariant
                i <= specs.len(),
                self.wf(),
                self@ == put_all(before, specs@.take(i as int)),
            decreases specs.len() - i,
        {
            let e = Entry {
                spec: specs[i].clone(),
                state: TunnelState::Stopped,
                stop: false,
                retry_now: false,
                running: false,
            };
            let ghost here = self@;
            proof {
                let next = specs@.take(i + 1);
                assert(next.drop_last() =~= specs@.take(i as int));
                assert(next.last() == specs@[i as int]);
                lemma_put_distinct(here, specs@[i as int]);
            }
            match self.find(specs[i].id.as_str()) {
                Some(k) => {
                    self.set(k, e);
                },
                None => {
                    self.entries.push(e);
                },
            }
            assert(self@ =~= put(here, specs@[i as int]));
            i = i + 1;
        }
        assert(specs@.take(specs@.len() as int) =~= specs@);
        self.specs()
    }

    /// All tunnels, in the order they were created: what is kept between runs.
    pub fn specs(&self) -> (r: Vec<TunnelSpec>)
        ensures
            r@ == specs_of(self@),
    {
        let mut out: Vec<TunnelSpec> = Vec::new();
        let mut i: usize = 0;
        while i < self.entries.len()
            invariant
                i <= self.entries.len(),
                out@ == specs_of(self@).take(i as int),
            decreases self.entries.len() - i,
        {
            out.push(self.entries[i].spec.clone());
            i = i + 1;
        }
        assert(out@ =~= specs_of(self@));
        out
    }

    /// All tunnels with their states, in the order they were created.
    pub fn list(&self) -> (r: Vec<(TunnelSpec, TunnelState)>)
        ensures
            r@ == self@.map_values(|e: Entry| (e.spec, e.state)),
    {
        let ghost all = self@.map_values(|e: Entry| (e.spec, e.state));
        let mut out: Vec<(TunnelSpec, TunnelState)> = Vec::new();
        let mut i: usize = 0;
        while i < self.entries.len()
            invariant
                i <= self.entries.len(),
                all == self@.map_values(|e: Entry| (e.spec, e.state)),
                out@ == all.take(i as int),
            decreases self.entries.len() - i,
        {
            out.push((self.entries[i].spec.clone(), self.entries[i].state.clone()));
            i = i + 1;
        }
        assert(out@ =~= all);
        out
    }

    /// Adds a tunnel at the end, if it is acceptable and its id is new.
    pub fn create(&mut self, spec: TunnelSpec) -> (r: Result<(), String>)
        requires
            old(self).wf(),
        ensures
            final(self).wf(),
            match r {
                Ok(_) => model::objection(spec) is None && !listed(old(self)@, spec.id@)
                    && final(self)@ == old(self)@.push(idle_entry(spec)),
                Err(e) => final(self)@ == old(self)@ && match model::objection(spec) {
                    Some(o) => e@ == o,
                    None => listed(old(self)@, spec.id@) && e@ == "隧道 id 已存在: "@ + spec.id@,
                },
            },
    {
        match spec.validate() {
            Ok(_) => {},
            Err(e) => {
                return Err(e);
            },
        }
        if let Some(_) = self.find(spec.id.as_str()) {
            let mut s = "隧道 id 已存在: ".to_owned();
            s.append(spec.id.as_str());
            return Err(s);
        }
        let ghost before = self@;
        proof {
            lemma_put_distinct(before, spec);
        }
        self.entries.push(
            Entry {
                spec,
                state: TunnelState::Stopped,
                stop: false,
                retry_now: false,
                running: false,
            },
        );
        assert(self@ =~= put(before, spec));
        Ok(())
    }

    /// Starts a tunnel that does not run: clears its flags and marks it as running. Gives
    /// the tunnel that the task is to run.
    pub fn start(&mut self, id: &str) -> (r: Result<TunnelSpec, String>)
        requires
            old(self).wf(),
        ensures
            final(self).wf(),
            match r {
                Ok(spec) => {
                    &&& listed(old(self)@, id@)
                    &&& !entry(old(self)@, id@).running
                    &&& spec == entry(old(self)@, id@).spec
                    &&& final(self)@ == replaced(
                        old(self)@,
                        id@,
                        (Entry {
                            stop: false,
                            retry_now: false,
                            running: true,
                            ..entry(old(self)@, id@)
                        }),
                    )
                },
                Err(e) => final(self)@ == old(self)@ && if listed(old(self)@, id@) {
                    entry(old(self)@, id@).running && e@ == "隧道已在运行"@
                } else {
                    e@ == missing(id@)
                },
            },
    {
        match self.find(id) {
            None => Err(missing_text(id)),
            Some(i) => {
                if self.entries[i].running {
                    return Err("隧道已在运行".to_owned());
                }
                let spec = self.entries[i].spec.clone();
                let e = Entry {
                    spec: spec.clone(),
                    state: self.entries[i].state.clone(),
                    stop: false,
                    retry_now: false,
                    running: true,
                };
                self.set(i, e);
                Ok(spec)
            },
        }
    }

    /// Asks a tunnel to stop. Its owner then closes the session that stands, if one does.
    pub fn stop(&mut self, id: &str) -> (r: Result<(), String>)
        requires
            old(self).wf(),
        ensures
            final(self).wf(),
            match r {
                Ok(_) => listed(old(self)@, id@) && final(self)@ == replaced(
                    old(self)@,
                    id@,
                    (Entry { stop: true, ..entry(old(self)@, id@) }),
                ),
                Err(e) => !listed(old(self)@, id@) && e@ == missing(id@) && final(self)@ == old(self)@,
            },
    {
        match self.find(id) {
            None => Err(missing_text(id)),
            Some(i) => {
                let e = self.copy(i);
                self.set(i, Entry { stop: true, ..e });
                Ok(())
            },
        }
    }

    fn copy(&self, i: usize) -> (r: Entry)
        requires
            i < self@.len(),
        ensures
            r == self@[i as int],
    {
        let e = &self.entries[i];
        Entry {
            spec: e.spec.clone(),
            state: e.state.clone(),
            stop: e.stop,
            retry_now: e.retry_now,
            running: e.running,
        }
    }

    /// Asks a tunnel to cut its wait short. Harmless where it does not wait.
    pub fn retry_now(&mut self, id: &str) -> (r: Result<(), String>)
        requires
            old(self).wf(),
        ensures
            final(self).wf(),
            match r {
                Ok(_) => listed(old(self)@, id@) && final(self)@ == replaced(
                    old(self)@,
                    id@,
                    (Entry { retry_now: true, ..entry(old(self)@, id@) }),
                ),
                Err(e) => !listed(old(self)@, id@) && e@ == missing(id@) && final(self)@ == old(self)@,
            },
    {
        match self.find(id) {
            None => Err(missing_text(id)),
            Some(i) => {
                let e = self.copy(i);
                self.set(i, Entry { retry_now: true, ..e });
                Ok(())
            },
        }
    }

    /// Whether there is a tunnel whose session can be dropped. Nothing is noted: to the
    /// tunnel's task it looks like a network failure.
    pub fn drop_connection(&self, id: &str) -> (r: Result<(), String>)
        requires
            self.wf(),
        ensures
            match r {
                Ok(_) => listed(self@, id@),
                Err(e) => !listed(self@, id@) && e@ == missing(id@),
            },
    {
        match self.find(id) {
            None => Err(missing_text(id)),
            Some(_) => Ok(()),
        }
    }

    /// Says whether a tunnel starts together with the application.
    pub fn set_enabled(&mut self, id: &str, enabled: bool) -> (r: Result<(), String>)
        requires
            old(self).wf(),
        ensures
            final(self).wf(),
            match r {
                Ok(_) => listed(old(self)@, id@) && final(self)@ == replaced(
                    old(self)@,
                    id@,
                    (Entry {
                        spec: (TunnelSpec { enabled, ..entry(old(self)@, id@).spec }),
                        ..entry(old(self)@, id@)
                    }),
                ),
                Err(e) => !listed(old(self)@, id@) && e@ == missing(id@) && final(self)@ == old(self)@,
            },
    {
        match self.find(id) {
            None => Err(missing_text(id)),
            Some(i) => {
                let mut e = self.copy(i);
                e.spec.enabled = enabled;
                self.set(i, e);
                Ok(())
            },
        }
    }

    /// Removes a tunnel. The entry that comes out asks its task to stop; the other tunnels
    /// keep their order.
    pub fn delete(&mut self, id: &str) -> (r: Result<Entry, String>)
        requires
            old(self).wf(),
        ensures
            final(self).wf(),
            match r {
                Ok(e) => {
                    &&& listed(old(self)@, id@)
                    &&& e == (Entry { stop: true, ..entry(old(self)@, id@) })
                    &&& final(self)@ == old(self)@.remove(place(old(self)@, id@))
                },
                Err(e) => !listed(old(self)@, id@) && e@ == missing(id@) && final(self)@ == old(self)@,
            },
    {
        match self.find(id) {
            None => Err(missing_text(id)),
            Some(i) => {
                let ghost before = self@;
                let mut e = self.entries.remove(i);
                proof {
                    let after = self@;
                    assert(after =~= before.remove(i as int));
                    assert forall|a: int, b: int| 0 <= a < b < after.len() implies (
                    #[trigger] after[a]).spec.id@ != (#[trigger] after[b]).spec.id@ by {
                        let x = if a < i { a } else { a + 1 };
                        let y = if b < i { b } else { b + 1 };
                        assert(before[x].spec.id@ != before[y].spec.id@);
                    }
                }
                e.stop = true;
                Ok(e)
            },
        }
    }

    /// The tunnel `id`.
    pub fn get(&self, id: &str) -> (r: Option<TunnelSpec>)
        requires
            self.wf(),
        ensures
            match r {
                Some(s) => listed(self@, id@) && s == entry(self@, id@).spec,
                None => !listed(self@, id@),
            },
    {
        match self.find(id) {
            Some(i) => Some(self.entries[i].spec.clone()),
            None => None,
        }
    }

    /// Removes all tunnels of a profile. The entries that come out ask their tasks to stop;
    /// the other tunnels keep their order.
    pub fn delete_of_profile(&mut self, profile_id: &str) -> (r: Vec<Entry>)
        requires
            old(self).wf(),
        ensures
            final(self).wf(),
            final(self)@ == of_others(old(self)@, profile_id@),
            r@ == stopped_of(old(self)@, profile_id@),
    {
        let mut todo: Vec<Entry> = Vec::new();
        todo.append(&mut self.entries);
        let ghost all = todo@;
        let n = todo.len();
        let mut rest: Vec<Entry> = Vec::new();
        let mut gone: Vec<Entry> = Vec::new();
        let mut i: usize = 0;
        assert(all.take(0) =~= seq![]);
        while i < n
            invariant
                i <= n,
                n == all.len(),
                distinct(all),
                todo@ == all.skip(i as int),
                rest@ == of_others(all.take(i as int), profile_id@),
                gone@ == stopped_of(all.take(i as int), profile_id@),
                distinct(rest@),
                forall|j: int|
                    0 <= j < rest@.len() ==> exists|k: int|
                        0 <= k < i && (#[trigger] rest@[j]) == #[trigger] all[k],
            decreases n - i,
        {
            let mut e = todo.remove(0);
            proof {
                assert(e == all[i as int]);
                assert(todo@ =~= all.skip(i + 1));
                assert(all.take(i + 1).drop_last() =~= all.take(i as int));
                assert(all.take(i + 1).last() == e);
                assert forall|j: int| 0 <= j < rest@.len() implies (#[trigger] rest@[j]).spec.id@
                    != e.spec.id@ by {
                    let k = choose|k: int| 0 <= k < i && rest@[j] == #[trigger] all[k];
                    assert(all[k].spec.id@ != all[i as int].spec.id@);
                }
            }
            if same_text(e.spec.profile_id.as_str(), profile_id) {
                e.stop = true;
                gone.push(e);
            } else {
                let ghost before = rest@;
                rest.push(e);
                assert forall|j: int| 0 <= j < rest@.len() implies exists|k: int|
                    0 <= k < i + 1 && (#[trigger] rest@[j]) == #[trigger] all[k] by {
                    if j < before.len() {
                        let k = choose|k: int| 0 <= k < i && before[j] == #[trigger] all[k];
                        assert(rest@[j] == all[k]);
                    } else {
                        assert(rest@[j] == all[i as int]);
                    }
                }
            }
            i = i + 1;
        }
        assert(all.take(n as int) =~= all);
        self.entries = rest;
        gone
    }

    /// The ids of the tunnels that start together with the application, in order.
    pub fn enabled_ids(&self) -> (r: Vec<String>)
        ensures
            text::texts(r@) == enabled_of(self@),
    {
        let mut out: Vec<String> = Vec::new();
        let mut i: usize = 0;
        assert(self@.take(0) =~= seq![]);
        assert(text::texts(out@) =~= seq![]);
        while i < self.entries.len()
            invariant
                i <= self.entries@.len(),
                text::texts(out@) == enabled_of(self@.take(i as int)),
            decreases self.entries.len() - i,
        {
            let e = &self.entries[i];
            proof {
                assert(self@.take(i + 1).drop_last() =~= self@.take(i as int));
                assert(self@.take(i + 1).last() == *e);
            }
            if e.spec.enabled {
                let s = e.spec.id.clone();
                proof {
                    text::lemma_texts_push(out@, s);
                }
                out.push(s);
            }
            i = i + 1;
        }
        assert(self@.take(self@.len() as int) =~= self@);
        out
    }

    /// The server listens on `port` for reverse tunnel `id`: there is a line to log. Where the
    /// port is news, the tunnel keeps it, and the flag says that the tunnels are to be saved;
    /// where it is not, nothing changes.
    pub fn on_bound_port(&mut self, id: &str, port: u16) -> (r: Option<(String, bool)>)
        requires
            old(self).wf(),
        ensures
            final(self).wf(),
            r is Some == is_reverse(old(self)@, id@),
            r matches Some(x) ==> x.0@ == bound_line(port, x.1) && x.1 == port_is_news(
                old(self)@,
                id@,
                port,
            ),
            final(self)@ == if port_is_news(old(self)@, id@, port) {
                replaced(old(self)@, id@, with_port(entry(old(self)@, id@), port))
            } else {
                old(self)@
            },
    {
        let i = match self.find(id) {
            None => {
                return None;
            },
            Some(i) => i,
        };
        let mut line = "服务器分配端口 ".to_owned();
        line.append(decimal_text(port as u64).as_str());
        let mut e = self.copy(i);
        let bind = match &e.spec.kind {
            TunnelKind::Reverse { bind, port: p } => {
                if *p == port {
                    return Some((line, false));
                }
                bind.clone()
            },
            _ => {
                return None;
            },
        };
        e.spec.kind = TunnelKind::Reverse { bind, port };
        self.set(i, e);
        line.append(", 已回填并保存");
        Some((line, true))
    }

    /// Notes the state that a tunnel's task reports. A tunnel that is gone has none.
    pub fn set_state(&mut self, id: &str, state: TunnelState)
        requires
            old(self).wf(),
        ensures
            final(self).wf(),
            final(self)@ == replaced(
                old(self)@,
                id@,
                (Entry { state, ..entry(old(self)@, id@) }),
            ),
    {
        if let Some(i) = self.find(id) {
            let mut e = self.copy(i);
            e.state = state;
            self.set(i, e);
        }
    }

    /// Notes that a tunnel's task is over.
    pub fn task_ended(&mut self, id: &str)
        requires
            old(self).wf(),
        ensures
            final(self).wf(),
            final(self)@ == replaced(
                old(self)@,
                id@,
                (Entry { running: false, ..entry(old(self)@, id@) }),
            ),
    {
        if let Some(i) = self.find(id) {
            let mut e = self.copy(i);
            e.running = false;
            self.set(i, e);
        }
    }

    /// Whether a tunnel's task is to stop: the user asked for it, or the tunnel is gone.
    pub fn stop_requested(&self, id: &str) -> (r: bool)
        requires
            self.wf(),
        ensures
            r == (listed(self@, id@) ==> self@[place(self@, id@)].stop),
    {
        match self.find(id) {
            Some(i) => self.entries[i].stop,
            None => true,
        }
    }

    /// Uses up a request to retry at once.
    pub fn take_retry(&mut self, id: &str) -> (r: bool)
        requires
            old(self).wf(),
        ensures
            final(self).wf(),
            r == (listed(old(self)@, id@) && old(self)@[place(old(self)@, id@)].retry_now),
            final(self)@ == replaced(
                old(self)@,
                id@,
                (Entry { retry_now: false, ..entry(old(self)@, id@) }),
            ),
    {
        match self.find(id) {
            Some(i) => {
                let mut e = self.copy(i);
                let asked = e.retry_now;
                e.retry_now = false;
                self.set(i, e);
                asked
            },
            None => false,
        }
    }
}

impl Default for Registry {
    fn default() -> (r: Self)
        ensures
            r.wf(),
            r@ == Seq::<Entry>::empty(),
    {
        Self::new()
    }
}

// ---------------------------------------------------------------- laws
/// Saving and restoring gives the same tunnels in the same order, none of them running.
pub proof fn law_restore_round_trip(es: Seq<Entry>)
    requires
        distinct(es),
    ensures
        specs_of(put_all(seq![], specs_of(es))) == specs_of(es),
        put_all(seq![], specs_of(es)) == es.map_values(|e: Entry| idle_entry(e.spec)),
    decreases es.len(),
{
    let idle = es.map_values(|e: Entry| idle_entry(e.spec));
    if es.len() == 0 {
        assert(put_all(seq![], specs_of(es)) =~= idle);
    } else {
        let front = es.drop_last();
        assert forall|i: int, j: int| 0 <= i < j < front.len() implies (
        #[trigger] front[i]).spec.id@ != (#[trigger] front[j]).spec.id@ by {
            assert(es[i].spec.id@ != es[j].spec.id@);
        }
        law_restore_round_trip(front);
        let before = put_all(seq![], specs_of(front));
        assert(specs_of(es).drop_last() =~= specs_of(front));
        let last = es.last().spec;
        assert(specs_of(es).last() == last);
        assert forall|i: int| !is_at(before, last.id@, i) by {
            if 0 <= i < before.len() {
                assert(before[i].spec == front[i].spec);
                assert(es[i].spec.id@ != es[es.len() - 1].spec.id@);
            }
        }
        assert(put_all(seq![], specs_of(es)) =~= idle);
    }
    assert(specs_of(idle) =~= specs_of(es));
}

/// Creating a tunnel leaves the others where they are; deleting one keeps the others in
/// their order, and what was created last and deleted leaves no trace.
pub proof fn law_create_then_delete(es: Seq<Entry>, spec: TunnelSpec)
    requires
        distinct(es),
        !listed(es, spec.id@),
    ensures
        listed(es.push(idle_entry(spec)), spec.id@),
        es.push(idle_entry(spec)).remove(place(es.push(idle_entry(spec)), spec.id@)) == es,
{
    let all = es.push(idle_entry(spec));
    lemma_put_distinct(es, spec);
    lemma_place(all, spec.id@, es.len() as int);
    assert(all.remove(es.len() as int) =~= es);
}

/// Once the tunnels of a profile are removed, no tunnel belongs to it, and every tunnel of
/// another profile is still there.
pub proof fn law_no_orphans(es: Seq<Entry>, profile_id: Seq<char>)
    ensures
        forall|i: int|
            0 <= i < of_others(es, profile_id).len() ==> (#[trigger] of_others(
                es,
                profile_id,
            )[i]).spec.profile_id@ != profile_id,
        forall|i: int|
            0 <= i < es.len() && (#[trigger] es[i]).spec.profile_id@ != profile_id ==> of_others(
                es,
                profile_id,
            ).contains(es[i]),
        of_others(es, profile_id).len() + stopped_of(es, profile_id).len() == es.len(),
    decreases es.len(),
{
    if es.len() > 0 {
        let rest = of_others(es.drop_last(), profile_id);
        let now = of_others(es, profile_id);
        law_no_orphans(es.drop_last(), profile_id);
        assert forall|i: int|
            0 <= i < es.len() && (#[trigger] es[i]).spec.profile_id@
                != profile_id implies now.contains(es[i]) by {
            if i < es.len() - 1 {
                assert(es.drop_last()[i] == es[i]);
                let k = choose|k: int| 0 <= k < rest.len() && rest[k] == es[i];
                assert(now[k] == es[i]);
            } else {
                assert(now[rest.len() as int] == es[i]);
            }
        }
    }
}

/// A port that was written back into a tunnel is the tunnel's port, it is no news any more,
/// and no other tunnel changes.
pub proof fn law_port_is_kept(es: Seq<Entry>, id: Seq<char>, port: u16)
    requires
        distinct(es),
        port_is_news(es, id, port),
    ensures
        listed(replaced(es, id, with_port(entry(es, id), port)), id),
        entry(replaced(es, id, with_port(entry(es, id), port)), id).spec.kind matches TunnelKind::Reverse {
            port: p,
            ..
        } && p == port,
        !port_is_news(replaced(es, id, with_port(entry(es, id), port)), id, port),
        forall|i: int|
            0 <= i < es.len() && i != place(es, id) ==> (#[trigger] replaced(
                es,
                id,
                with_port(entry(es, id), port),
            )[i]) == es[i],
{
    let i = place(es, id);
    assert(is_at(es, id, i));
    let after = replaced(es, id, with_port(entry(es, id), port));
    lemma_same_ids(es, after);
    assert(is_at(after, id, i));
    lemma_place(after, id, i);
}

/// A tunnel is found by its id, and what is found has that id; an id that no tunnel has is not
/// found.
pub proof fn law_tunnels_are_found_by_id(es: Seq<Entry>, id: Seq<char>, i: int)
    requires
        distinct(es),
    ensures
        0 <= i < es.len() ==> listed(es, es[i].spec.id@) && entry(es, es[i].spec.id@) == es[i]
            && place(es, es[i].spec.id@) == i,
        listed(es, id) ==> entry(es, id).spec.id@ == id && es.contains(entry(es, id)),
        listed(es, id) <==> exists|k: int| 0 <= k < es.len() && (#[trigger] es[k]).spec.id@ == id,
{
    if 0 <= i < es.len() {
        lemma_place(es, es[i].spec.id@, i);
    }
    if listed(es, id) {
        let k = place(es, id);
        assert(is_at(es, id, k));
        assert(es[k].spec.id@ == id);
    }
    if exists|k: int| 0 <= k < es.len() && (#[trigger] es[k]).spec.id@ == id {
        let k = choose|k: int| 0 <= k < es.len() && (#[trigger] es[k]).spec.id@ == id;
        assert(is_at(es, id, k));
    }
}

/// What is noted of one tunnel changes that tunnel only: it has the new entry, every other one
/// has its own, in its place; and what is noted of a tunnel that is not there changes nothing.
pub proof fn law_only_one_tunnel_changes(es: Seq<Entry>, id: Seq<char>, e: Entry, other: Seq<char>)
    requires
        distinct(es),
        e.spec.id@ == id,
        other != id,
    ensures
        replaced(es, id, e).len() == es.len(),
        listed(replaced(es, id, e), id) == listed(es, id),
        listed(es, id) ==> entry(replaced(es, id, e), id) == e,
        !listed(es, id) ==> replaced(es, id, e) == es,
        listed(replaced(es, id, e), other) == listed(es, other),
        listed(es, other) ==> entry(replaced(es, id, e), other) == entry(es, other) && place(
            replaced(es, id, e),
            other,
        ) == place(es, other),
{
    let after = replaced(es, id, e);
    if listed(es, id) {
        let k = place(es, id);
        assert(is_at(es, id, k));
        lemma_same_ids(es, after);
        assert(is_at(after, id, k));
        lemma_place(after, id, k);
        if listed(es, other) {
            let o = place(es, other);
            assert(is_at(es, other, o));
            assert(is_at(after, other, o));
            lemma_place(after, other, o);
        }
        if listed(after, other) {
            let o = place(after, other);
            assert(is_at(after, other, o));
            assert(is_at(es, other, o));
        }
    }
}

/// A tunnel that was created or restored is as it was given, stopped, with no request pending.
pub proof fn law_new_tunnel_is_idle(spec: TunnelSpec)
    ensures
        idle_entry(spec).spec == spec,
        idle_entry(spec).state is Stopped,
        !idle_entry(spec).stop,
        !idle_entry(spec).retry_now,
        !idle_entry(spec).running,
{
}

/// The server's port is written back into a reverse tunnel, and nothing else of it changes: it
/// keeps its address to listen on, its name, its profile, its landing, its policy and its state.
/// A port is news exactly where a reverse tunnel has another one.
pub proof fn law_only_the_port_is_written_back(es: Seq<Entry>, id: Seq<char>, e: Entry, port: u16)
    requires
        e.spec.kind is Reverse,
        distinct(es),
    ensures
        ({
            let w = with_port(e, port);
            &&& w.spec.kind == (TunnelKind::Reverse { bind: e.spec.kind->Reverse_bind, port })
            &&& w.spec.id == e.spec.id && w.spec.name == e.spec.name
            &&& w.spec.enabled == e.spec.enabled && w.spec.profile_id == e.spec.profile_id
            &&& w.spec.backend == e.spec.backend && w.spec.policy == e.spec.policy
            &&& w.state == e.state && w.stop == e.stop && w.retry_now == e.retry_now && w.running
                == e.running
        }),
        listed(es, id) ==> (port_is_news(es, id, port) <==> (entry(es, id).spec.kind is Reverse
            && entry(es, id).spec.kind->Reverse_port != port)),
        !listed(es, id) ==> !port_is_news(es, id, port) && !is_reverse(es, id),
        listed(es, id) ==> is_reverse(es, id) == (entry(es, id).spec.kind is Reverse),
{
}

/// The line about a port names the port, and says more where the port was kept.
pub proof fn law_bound_port_is_named(port: u16, kept: bool)
    ensures
        text::occurs(bound_line(port, kept), text::decimal(port as nat)),
        bound_line(port, false).is_prefix_of(bound_line(port, true)),
        bound_line(port, false) != bound_line(port, true),
{
    let head = "服务器分配端口 "@;
    let n = text::decimal(port as nat);
    let tail = if kept {
        ", 已回填并保存"@
    } else {
        Seq::empty()
    };
    text::law_occurrence(head, n, tail);
    assert(head + n + tail == bound_line(port, kept));
    reveal_strlit(", 已回填并保存");
    assert(bound_line(port, false) =~= head + n);
    assert(bound_line(port, true) =~= head + n + ", 已回填并保存"@);
    assert(bound_line(port, true).len() > bound_line(port, false).len());
    assert(bound_line(port, true).take(bound_line(port, false).len() as int) =~= bound_line(
        port,
        false,
    ));
}

/// The tunnels of a deleted profile come out in their order, each as it was but for the request
/// to stop; the others stay in their order.
pub proof fn law_deleted_tunnels_are_stopped(a: Seq<Entry>, e: Entry, profile_id: Seq<char>, i: int)
    ensures
        e.spec.profile_id@ == profile_id ==> {
            let out = stopped_of(a.push(e), profile_id);
            &&& out.len() == stopped_of(a, profile_id).len() + 1
            &&& out.drop_last() == stopped_of(a, profile_id)
            &&& out.last().stop
            &&& out.last().spec == e.spec && out.last().state == e.state
            &&& out.last().running == e.running && out.last().retry_now == e.retry_now
            &&& of_others(a.push(e), profile_id) == of_others(a, profile_id)
        },
        e.spec.profile_id@ != profile_id ==> {
            &&& stopped_of(a.push(e), profile_id) == stopped_of(a, profile_id)
            &&& of_others(a.push(e), profile_id) == of_others(a, profile_id).push(e)
        },
        stopped_of(Seq::empty(), profile_id).len() == 0,
        of_others(Seq::empty(), profile_id).len() == 0,
        0 <= i < stopped_of(a, profile_id).len() ==> stopped_of(a, profile_id)[i].stop
            && stopped_of(a, profile_id)[i].spec.profile_id@ == profile_id,
    decreases a.len(),
{
    assert(a.push(e).drop_last() =~= a);
    assert(a.push(e).last() == e);
    if e.spec.profile_id@ == profile_id {
        assert(stopped_of(a.push(e), profile_id).drop_last() =~= stopped_of(a, profile_id));
    }
    if a.len() > 0 {
        law_deleted_tunnels_are_stopped(a.drop_last(), a.last(), profile_id, i);
    }
}

/// The tunnels that start together with the application are those that are enabled, each by its
/// id, in the order they were created.
pub proof fn law_enabled_tunnels_start(a: Seq<Entry>, e: Entry, id: Seq<char>)
    ensures
        enabled_of(Seq::empty()).len() == 0,
        e.spec.enabled ==> enabled_of(a.push(e)) == enabled_of(a).push(e.spec.id@),
        !e.spec.enabled ==> enabled_of(a.push(e)) == enabled_of(a),
        enabled_of(a).contains(id) <==> exists|i: int|
            0 <= i < a.len() && (#[trigger] a[i]).spec.enabled && a[i].spec.id@ == id,
    decreases a.len(),
{
    assert(a.push(e).drop_last() =~= a);
    assert(a.push(e).last() == e);
    if a.len() > 0 {
        let front = a.drop_last();
        let x = a.last();
        law_enabled_tunnels_start(front, x, id);
        assert(a =~= front.push(x));
        assert(a[a.len() - 1] == x);
        let ids = enabled_of(front);
        if enabled_of(a).contains(id) {
            let k = choose|k: int| 0 <= k < enabled_of(a).len() && enabled_of(a)[k] == id;
            if k < ids.len() {
                assert(ids[k] == id);
                assert(ids.contains(id));
                let i = choose|i: int|
                    0 <= i < front.len() && (#[trigger] front[i]).spec.enabled
                        && front[i].spec.id@ == id;
                assert(a[i] == front[i]);
            }
        }
        if exists|i: int| 0 <= i < a.len() && (#[trigger] a[i]).spec.enabled && a[i].spec.id@ == id {
            let i = choose|i: int|
                0 <= i < a.len() && (#[trigger] a[i]).spec.enabled && a[i].spec.id@ == id;
            if i < front.len() {
                assert(front[i] == a[i]);
                let k = choose|k: int| 0 <= k < ids.len() && ids[k] == id;
                assert(enabled_of(a)[k] == id);
            } else {
                assert(enabled_of(a)[enabled_of(a).len() - 1] == id);
            }
        }
    }
}

/// A tunnel that is restored over one with its id takes its place; any other one comes last.
/// Either way it is idle, and the other tunnels stay where they are.
pub proof fn law_restored_tunnel_takes_its_place(es: Seq<Entry>, spec: TunnelSpec, i: int)
    requires
        distinct(es),
    ensures
        listed(put(es, spec), spec.id@),
        entry(put(es, spec), spec.id@) == idle_entry(spec),
        listed(es, spec.id@) ==> put(es, spec).len() == es.len(),
        !listed(es, spec.id@) ==> put(es, spec).len() == es.len() + 1 && put(es, spec).last()
            == idle_entry(spec),
        0 <= i < es.len() && es[i].spec.id@ != spec.id@ ==> put(es, spec)[i] == es[i],
{
    let after = put(es, spec);
    lemma_put_distinct(es, spec);
    if listed(es, spec.id@) {
        let k = place(es, spec.id@);
        assert(is_at(es, spec.id@, k));
        assert(is_at(after, spec.id@, k));
        lemma_place(after, spec.id@, k);
    } else {
        assert(is_at(after, spec.id@, es.len() as int));
        lemma_place(after, spec.id@, es.len() as int);
    }
}

/// A complaint about a tunnel that is not there ends in the id that was asked for.
pub proof fn law_missing_tunnel_is_named(id: Seq<char>)
    ensures
        text::ends_in(missing(id), id),
{
    text::lemma_says("隧道不存在: "@, seq![], seq![], id);
}

} // verus!
