//! Diagnostics: the rotating log file, the bundle that is exported, and their bounds on disk.
use crate::text;
use crate::text::{contains, decimal_text, ends_with, starts_with};
use crate::text_map;
use crate::text_map::sort;
use vstd::prelude::*;

verus! {

/// The size at which the log file rotates.
pub const DEFAULT_MAX_BYTES: u64 = 2_097_152;

/// How many rotated files are kept.
pub const ROTATE_KEEP: usize = 2;

/// The longest line that is written, in bytes.
pub const MAX_LINE_BYTES: usize = 65_536;

// ---------------------------------------------------------------- levels
/// Whether a message reports a failure.
pub open spec fn is_error(msg: Seq<char>) -> bool {
    text::occurs(msg, "❌"@) || text::occurs(msg, "失败"@) || text::occurs(msg, "错误"@)
        || text::occurs(msg, "被拒"@)
}

/// Whether a message warns.
pub open spec fn is_warning(msg: Seq<char>) -> bool {
    text::occurs(msg, "警告"@) || text::occurs(msg, "WARN"@) || text::occurs(msg, "回退"@)
        || text::occurs(msg, "耗尽"@)
}

/// The level of a message. A failure counts more than a warning.
pub open spec fn level(msg: Seq<char>) -> Seq<char> {
    if is_error(msg) {
        "error"@
    } else if is_warning(msg) {
        "warn"@
    } else {
        "info"@
    }
}

/// The level of a message, told by the words in it.
pub fn level_of(msg: &str) -> (r: &'static str)
    ensures
        r@ == level(msg@),
{
    if contains(msg, "❌") || contains(msg, "失败") || contains(msg, "错误") || contains(
        msg,
        "被拒",
    ) {
        "error"
    } else if contains(msg, "警告") || contains(msg, "WARN") || contains(msg, "回退") || contains(
        msg,
        "耗尽",
    ) {
        "warn"
    } else {
        "info"
    }
}

// ---------------------------------------------------------------- memory and time
/// The nearest integer to `n / d`; of two that are equally near, the even one.
pub open spec fn half_even(n: nat, d: nat) -> nat {
    let q = n / d;
    let r = n % d;
    if 2 * r < d || (2 * r == d && q % 2 == 0) {
        q
    } else {
        q + 1
    }
}

/// The distance of the numbers with a significand of 53 bits around `n`.
pub open spec fn spacing(n: nat) -> nat
    decreases n,
{
    if n < 0x20_0000_0000_0000 {
        1
    } else {
        2 * spacing(n / 2)
    }
}

/// The nearest number to `n` with a significand of 53 bits.
pub open spec fn to_double(n: nat) -> nat {
    half_even(n, spacing(n)) * spacing(n)
}

/// Bytes in tenths of a mebibyte, rounded.
pub open spec fn tenths(bytes: nat) -> nat {
    half_even(to_double(bytes) * 10, 1_048_576)
}

/// Bytes in mebibytes, to one decimal place, computed in double precision.
pub open spec fn megabytes(bytes: nat) -> Seq<char> {
    text::decimal(tenths(bytes) / 10) + "."@ + text::decimal(tenths(bytes) % 10) + " MB"@
}

fn spacing_of(n: u64) -> (r: u64)
    ensures
        r == spacing(n as nat),
        0 < r,
        r * 0x10_0000_0000_0000 <= n || r == 1,
    decreases n,
{
    if n < 0x20_0000_0000_0000 {
        1
    } else {
        let h = spacing_of(n / 2);
        assert(h <= 2048);
        2 * h
    }
}

fn nearest(n: u128, d: u128) -> (r: u128)
    requires
        0 < d <= 0x1_0000_0000,
        n < 0x1_0000_0000_0000_0000_0000_0000,
    ensures
        r == half_even(n as nat, d as nat),
        r <= n + 1,
{
    let q = n / d;
    let m = n % d;
    assert(q <= n) by (nonlinear_arith)
        requires
            0 < d,
            q == n / d,
    ;
    if 2 * m < d || (2 * m == d && q % 2 == 0) {
        q
    } else {
        q + 1
    }
}

/// Writes an amount of memory in mebibytes.
pub fn fmt_mb(bytes: u64) -> (r: String)
    ensures
        r@ == megabytes(bytes as nat),
{
    let u = spacing_of(bytes);
    assert(u <= 4096);
    let q = nearest(bytes as u128, u as u128);
    assert(q * u <= 0x1_0000_0000_0000_0001 * 4096) by (nonlinear_arith)
        requires
            q <= 0x1_0000_0000_0000_0001,
            u <= 4096,
    ;
    let b: u128 = q * (u as u128);
    assert(b == to_double(bytes as nat));
    let t = nearest(b * 10, 1_048_576);
    assert(b * 10 / 1_048_576 <= 0xffff_ffff_ffff) by {
        assert(b <= 0x1000_0000_0000_0000_1000);
        assert(b <= bytes + u) by {
            lemma_to_double(bytes as nat, u as nat);
        }
    }
    let mut s = decimal_text((t / 10) as u64);
    s.append(".");
    s.append(decimal_text((t % 10) as u64).as_str());
    s.append(" MB");
    s
}

/// Rounding to a multiple moves a number by no more than the distance of two.
proof fn lemma_to_double(n: nat, u: nat)
    requires
        u > 0,
    ensures
        half_even(n, u) * u <= n + u,
{
    let q = n / u;
    vstd::arithmetic::div_mod::lemma_fundamental_div_mod(n as int, u as int);
    assert(q * u <= n) by (nonlinear_arith)
        requires
            n == u * q + n % u,
            n % u >= 0,
    ;
    assert((q + 1) * u == q * u + u) by (nonlinear_arith);
}

/// How many minutes have passed since the start, given the seconds; zero before the start.
pub fn uptime_minutes(elapsed_secs: Option<u64>) -> (r: u64)
    ensures
        r == match elapsed_secs {
            Some(s) => s / 60,
            None => 0,
        },
{
    match elapsed_secs {
        Some(s) => s / 60,
        None => 0,
    }
}

/// How the time is written in a line.
pub const LINE_TIME: &'static str = "%Y-%m-%d %H:%M:%S";

/// How the time is written in the name of a bundle.
pub const NAME_TIME: &'static str = "%Y%m%d-%H%M%S";

/// The time that is `secs` seconds after the start of 1970 in UTC, in a zone `offset` seconds
/// east of Greenwich, written as `format` says; none where there is no such time or zone.
pub uninterp spec fn local_time(secs: i64, offset: i32, format: Seq<char>) -> Option<Seq<char>>;

/// `chrono::DateTime::from_timestamp` in the zone of `chrono::FixedOffset::east_opt`, written
/// by `format`. The result depends on the three arguments alone.
#[verifier::external_body]
fn write_time(secs: i64, offset: i32, format: &str) -> (r: Option<String>)
    requires
        format@ == LINE_TIME@ || format@ == NAME_TIME@,
    ensures
        text::maybe(r) == local_time(secs, offset, format@),
{
    let zone = chrono::FixedOffset::east_opt(offset)?;
    let time = chrono::DateTime::from_timestamp(secs, 0)?.with_timezone(&zone);
    Some(time.format(format).to_string())
}

/// The time of a line.
pub fn now(secs: i64, offset: i32) -> (r: Option<String>)
    ensures
        text::maybe(r) == local_time(secs, offset, LINE_TIME@),
{
    write_time(secs, offset, LINE_TIME)
}

/// The name of a bundle that is exported at a time.
pub fn bundle_name(secs: i64, offset: i32) -> (r: Option<String>)
    ensures
        match local_time(secs, offset, NAME_TIME@) {
            Some(t) => r matches Some(n) && n@ == named_bundle(t),
            None => r is None,
        },
{
    match write_time(secs, offset, NAME_TIME) {
        Some(t) => Some(name_bundle(t.as_str())),
        None => None,
    }
}

/// The name of the bundle with this time.
pub open spec fn named_bundle(time: Seq<char>) -> Seq<char> {
    "diag-"@ + time + ".txt"@
}

/// Names the bundle with this time.
pub fn name_bundle(time: &str) -> (r: String)
    ensures
        r@ == named_bundle(time@),
{
    let mut s = "diag-".to_owned();
    s.append(time);
    s.append(".txt");
    s
}

// ---------------------------------------------------------------- the log file
/// A line as it is written, with the time, the level and the source.
pub open spec fn whole_line(
    now: Seq<char>,
    level: Seq<char>,
    tag: Seq<char>,
    msg: Seq<char>,
) -> Seq<char> {
    now + " ["@ + level + "] ["@ + tag + "] "@ + msg + "\n"@
}

/// The size of a text in bytes.
pub open spec fn size(s: Seq<char>) -> nat {
    vstd::utf8::encode_utf8(s).len()
}

fn size_of_text(s: &str) -> (r: usize)
    ensures
        r == size(s@),
{
    s.as_bytes().len()
}

/// What is written for a line: the line, or a remark on its size where it is too long.
pub open spec fn log_line(
    now: Seq<char>,
    level: Seq<char>,
    tag: Seq<char>,
    msg: Seq<char>,
) -> Seq<char> {
    let line = whole_line(now, level, tag, msg);
    if size(line) > MAX_LINE_BYTES {
        whole_line(now, level, tag, "(超长行 "@ + text::decimal(size(line)) + "B 已截断)"@)
    } else {
        line
    }
}

fn make_line(now: &str, level: &str, tag: &str, msg: &str) -> (r: String)
    ensures
        r@ == whole_line(now@, level@, tag@, msg@),
{
    let mut s = now.to_owned();
    s.append(" [");
    s.append(level);
    s.append("] [");
    s.append(tag);
    s.append("] ");
    s.append(msg);
    s.append("\n");
    s
}

/// What is done to write a line.
#[derive(Debug, PartialEq, Eq)]
pub struct LogStep {
    /// Rotate the file first.
    pub rotate: bool,
    pub line: String,
}

/// The log file: what it holds, and what it may hold.
#[derive(Debug, Clone, Copy, PartialEq, Eq, Structural)]
pub struct FileLog {
    /// Whether the file is open. Lines for one that is not are dropped.
    pub open: bool,
    /// Its size.
    pub written: u64,
    /// The size it may have.
    pub max_bytes: u64,
}

/// Whether the file rotates before a line: the two do not fit together.
pub open spec fn must_rotate(f: FileLog, line: Seq<char>) -> bool {
    f.written + size(line) > f.max_bytes
}

/// The log after the file was rotated.
pub open spec fn rotated(f: FileLog, opened: bool) -> FileLog {
    FileLog { open: opened, written: 0, ..f }
}

/// The log after a line was written.
pub open spec fn grown(f: FileLog, line: Seq<char>) -> FileLog {
    FileLog { written: (f.written + size(line)) as u64, ..f }
}

impl FileLog {
    /// The log of a file that was opened and has this size.
    pub fn open(written: u64, max_bytes: u64) -> (r: Self)
        ensures
            r == (FileLog { open: true, written, max_bytes }),
    {
        FileLog { open: true, written, max_bytes }
    }

    /// Works out how a line is written. The file rotates before a line that does not fit.
    pub fn write_line(&self, now: &str, level: &str, tag: &str, msg: &str) -> (r: LogStep)
        ensures
            r.line@ == log_line(now@, level@, tag@, msg@),
            r.rotate == must_rotate(*self, r.line@),
    {
        let mut line = make_line(now, level, tag, msg);
        let n = size_of_text(line.as_str());
        if n > MAX_LINE_BYTES {
            let mut m = "(超长行 ".to_owned();
            m.append(decimal_text(n as u64).as_str());
            m.append("B 已截断)");
            line = make_line(now, level, tag, m.as_str());
        }
        let n = size_of_text(line.as_str());
        let rotate = self.written as u128 + n as u128 > self.max_bytes as u128;
        LogStep { rotate, line }
    }

    /// The file was rotated: a new one is open, if it could be opened.
    pub fn on_rotated(&mut self, opened: bool)
        ensures
            *final(self) == rotated(*old(self), opened),
    {
        self.open = opened;
        self.written = 0;
    }

    /// A line was written.
    pub fn on_written(&mut self, line: &str)
        requires
            old(self).written + size(line@) <= u64::MAX,
        ensures
            *final(self) == grown(*old(self), line@),
    {
        self.written = self.written + size_of_text(line) as u64;
    }
}

/// Works out how a line is logged; nothing where there is no log.
pub fn log(sink: Option<&FileLog>, now: &str, level: &str, tag: &str, msg: &str) -> (r: Option<
    LogStep,
>)
    ensures
        match sink {
            Some(f) => r matches Some(s) && s.line@ == log_line(now@, level@, tag@, msg@)
                && s.rotate == must_rotate(*f, s.line@),
            None => r is None,
        },
{
    match sink {
        Some(f) => Some(f.write_line(now, level, tag, msg)),
        None => None,
    }
}

/// The line of a start.
pub fn start_line(version: &str, os: &str, arch: &str, debug: bool) -> (r: String)
    ensures
        r@ == "==== proxyTool "@ + version@ + " 启动 | "@ + os@ + " "@ + arch@ + " | "@ + (
        if debug {
            "debug"@
        } else {
            "release"@
        }) + " ===="@,
{
    let mut s = "==== proxyTool ".to_owned();
    s.append(version);
    s.append(" 启动 | ");
    s.append(os);
    s.append(" ");
    s.append(arch);
    s.append(" | ");
    s.append(
        if debug {
            "debug"
        } else {
            "release"
        },
    );
    s.append(" ====");
    s
}

/// The line about the memory in use.
pub fn memory_line(at_start: bool, rss: u64) -> (r: String)
    ensures
        r@ == (if at_start {
            "启动内存 RSS: "@
        } else {
            "内存 RSS: "@
        }) + megabytes(rss as nat),
{
    let mut s = if at_start {
        "启动内存 RSS: "
    } else {
        "内存 RSS: "
    }.to_owned();
    s.append(fmt_mb(rss).as_str());
    s
}

// ---------------------------------------------------------------- rotation
/// A step of a rotation. One that fails is passed over.
#[derive(Debug, PartialEq, Eq)]
pub enum RotateStep {
    Remove(String),
    Rename(String, String),
}

/// A step as a mathematical value.
pub enum StepView {
    Remove(Seq<char>),
    Rename(Seq<char>, Seq<char>),
}

impl View for RotateStep {
    type V = StepView;

    open spec fn view(&self) -> StepView {
        match self {
            RotateStep::Remove(a) => StepView::Remove(a@),
            RotateStep::Rename(a, b) => StepView::Rename(a@, b@),
        }
    }
}

/// The steps of an executable vector.
pub open spec fn steps(v: Seq<RotateStep>) -> Seq<StepView> {
    v.map_values(|s: RotateStep| s@)
}

/// The name of a rotated file: the higher the number, the older.
pub open spec fn numbered(name: Seq<char>, n: nat) -> Seq<char> {
    name + "."@ + text::decimal(n)
}

/// The steps of a rotation: the oldest file goes, the others grow older.
pub open spec fn rotation(name: Seq<char>) -> Seq<StepView> {
    seq![
        StepView::Remove(numbered(name, 2)),
        StepView::Rename(numbered(name, 1), numbered(name, 2)),
        StepView::Rename(name, numbered(name, 1)),
    ]
}

fn numbered_name(name: &str, n: u64) -> (r: String)
    ensures
        r@ == numbered(name@, n as nat),
{
    let mut s = name.to_owned();
    s.append(".");
    s.append(decimal_text(n).as_str());
    s
}

/// The steps that rotate the file `name`, in the order in which they are done.
pub fn rotate(name: &str) -> (r: Vec<RotateStep>)
    ensures
        steps(r@) == rotation(name@),
{
    let mut v: Vec<RotateStep> = Vec::new();
    v.push(RotateStep::Remove(numbered_name(name, 2)));
    v.push(RotateStep::Rename(numbered_name(name, 1), numbered_name(name, 2)));
    v.push(RotateStep::Rename(name.to_owned(), numbered_name(name, 1)));
    assert(steps(v@) =~= rotation(name@));
    v
}

/// A directory after a step. Renaming a file that is not there does nothing.
pub open spec fn stepped<T>(dir: Map<Seq<char>, T>, s: StepView) -> Map<Seq<char>, T> {
    match s {
        StepView::Remove(a) => dir.remove(a),
        StepView::Rename(a, b) => if dir.dom().contains(a) {
            dir.insert(b, dir[a]).remove(a)
        } else {
            dir
        },
    }
}

/// A directory after several steps.
pub open spec fn stepped_all<T>(dir: Map<Seq<char>, T>, s: Seq<StepView>) -> Map<Seq<char>, T>
    decreases s.len(),
{
    if s.len() == 0 {
        dir
    } else {
        stepped(stepped_all(dir, s.drop_last()), s.last())
    }
}

/// A rotation frees the name of the log file, moves its contents one place on, and touches
/// no other file: of all that was there only the oldest file is lost.
pub proof fn law_rotation<T>(dir: Map<Seq<char>, T>, name: Seq<char>)
    requires
        dir.dom().contains(name),
    ensures
        !stepped_all(dir, rotation(name)).dom().contains(name),
        stepped_all(dir, rotation(name)).dom().contains(numbered(name, 1)),
        stepped_all(dir, rotation(name))[numbered(name, 1)] == dir[name],
        stepped_all(dir, rotation(name)).dom().contains(numbered(name, 2))
            == dir.dom().contains(numbered(name, 1)),
        dir.dom().contains(numbered(name, 1)) ==> stepped_all(dir, rotation(name))[numbered(
            name,
            2,
        )] == dir[numbered(name, 1)],
        forall|f: Seq<char>|
            f != name && f != numbered(name, 1) && f != numbered(name, 2) ==> (#[trigger]
            stepped_all(dir, rotation(name)).dom().contains(f) == dir.dom().contains(f)) && (
            dir.dom().contains(f) ==> stepped_all(dir, rotation(name))[f] == dir[f]),
{
    let r = rotation(name);
    let n1 = numbered(name, 1);
    let n2 = numbered(name, 2);
    reveal_strlit(".");
    assert(n1.len() == name.len() + 2);
    assert(n2.len() == name.len() + 2);
    assert(n1[name.len() as int + 1] == '1');
    assert(n2[name.len() as int + 1] == '2');
    assert(n1 != n2);
    let r2 = r.drop_last();
    let r1 = r2.drop_last();
    let r0 = r1.drop_last();
    assert(r.last() == StepView::Rename(name, n1));
    assert(r2.last() == StepView::Rename(n1, n2));
    assert(r1.last() == StepView::Remove(n2));
    assert(r0.len() == 0);
    assert(stepped_all(dir, r0) == dir);
    assert(stepped_all(dir, r1) == dir.remove(n2));
    assert(stepped_all(dir, r2) == stepped(dir.remove(n2), r2.last()));
}

// ---------------------------------------------------------------- the bundle
/// A log file in the bundle, if it could be read.
pub open spec fn bundle_part(name: Seq<char>, content: Option<Seq<char>>) -> Seq<char> {
    match content {
        Some(t) => "\n---- "@ + name + " ----\n"@ + t,
        None => seq![],
    }
}

/// The text that may be there.
pub open spec fn maybe_str(s: Option<&str>) -> Option<Seq<char>> {
    match s {
        Some(t) => Some(t@),
        None => None,
    }
}

fn push_part(out: &mut String, name: &str, content: Option<&str>)
    ensures
        final(out)@ == old(out)@ + bundle_part(name@, maybe_str(content)),
{
    if let Some(t) = content {
        let ghost before = out@;
        out.append("\n---- ");
        out.append(name);
        out.append(" ----\n");
        out.append(t);
        assert(out@ =~= before + bundle_part(name@, maybe_str(content)));
    } else {
        assert(out@ =~= out@ + bundle_part(name@, maybe_str(content)));
    }
}

/// The text of a bundle: a head line, the summary, and the log files from the oldest on.
pub fn export_bundle(
    version: &str,
    now: &str,
    minutes: u64,
    summary: &str,
    second: Option<&str>,
    first: Option<&str>,
    current: Option<&str>,
) -> (r: String)
    ensures
        r@ == "proxyTool 诊断包 v"@ + version@ + " | 导出于 "@ + now@ + " | 运行 "@ + text::decimal(
            minutes as nat,
        ) + " 分钟\n\n"@ + summary@ + "\n==== 运行日志 (旧 → 新, 已自动轮转) ====\n"@ + bundle_part(
            "app.log.2"@,
            maybe_str(second),
        ) + bundle_part("app.log.1"@, maybe_str(first)) + bundle_part(
            "app.log"@,
            maybe_str(current),
        ),
{
    let mut s = "proxyTool 诊断包 v".to_owned();
    s.append(version);
    s.append(" | 导出于 ");
    s.append(now);
    s.append(" | 运行 ");
    s.append(decimal_text(minutes).as_str());
    s.append(" 分钟\n\n");
    s.append(summary);
    s.append("\n==== 运行日志 (旧 → 新, 已自动轮转) ====\n");
    push_part(&mut s, "app.log.2", second);
    push_part(&mut s, "app.log.1", first);
    push_part(&mut s, "app.log", current);
    s
}

/// Whether a file is a bundle, by its name.
pub open spec fn is_bundle(name: Seq<char>) -> bool {
    text::found_at(name, "diag-"@, 0) && text::found_at(name, ".txt"@, name.len() - ".txt"@.len())
}

/// The bundle names among `names`.
pub open spec fn bundles(names: Seq<Seq<char>>) -> Seq<Seq<char>>
    decreases names.len(),
{
    if names.len() == 0 {
        seq![]
    } else if is_bundle(names.last()) {
        bundles(names.drop_last()).push(names.last())
    } else {
        bundles(names.drop_last())
    }
}

/// Whether `all` is `names` in dictionary order.
pub open spec fn is_sorted_of(all: Seq<Seq<char>>, names: Seq<Seq<char>>) -> bool {
    text_map::sorted(all) && all.to_multiset() == names.to_multiset()
}

/// How many of `n` things are to go so that `keep` are left.
pub open spec fn excess(n: nat, keep: nat) -> int {
    if n > keep {
        n - keep
    } else {
        0
    }
}

/// The bundles to delete so that `keep` are left: the first ones in dictionary order, which
/// are the oldest, since their names carry the time.
pub fn prune_bundles(names: &Vec<String>, keep: usize) -> (r: Vec<String>)
    ensures
        exists|all: Seq<Seq<char>>| #[trigger]
            is_sorted_of(all, bundles(text::texts(names@))) && text::texts(r@) == all.take(
                excess(all.len(), keep as nat),
            ),
{
    let mut found: Vec<String> = Vec::new();
    let ghost all_names = text::texts(names@);
    let mut i: usize = 0;
    assert(all_names.take(0) =~= seq![]);
    assert(text::texts(found@) =~= seq![]);
    while i < names.len()
        invariant
            i <= names.len(),
            all_names == text::texts(names@),
            text::texts(found@) == bundles(all_names.take(i as int)),
        decreases names.len() - i,
    {
        let n = &names[i];
        proof {
            assert(all_names.take(i + 1).drop_last() =~= all_names.take(i as int));
            assert(all_names.take(i + 1).last() == n@);
        }
        if starts_with(n.as_str(), "diag-") && ends_with(n.as_str(), ".txt") {
            let s = n.clone();
            proof {
                text::lemma_texts_push(found@, s);
            }
            found.push(s);
        }
        i = i + 1;
    }
    assert(all_names.take(all_names.len() as int) =~= all_names);
    sort(&mut found);
    let ghost all = text::texts(found@);
    assert(is_sorted_of(all, bundles(all_names)));
    let excess: usize = if found.len() > keep {
        found.len() - keep
    } else {
        0
    };
    let mut out: Vec<String> = Vec::new();
    let mut k: usize = 0;
    assert(text::texts(out@) =~= all.take(0));
    while k < excess
        invariant
            k <= excess <= found@.len(),
            all == text::texts(found@),
            text::texts(out@) == all.take(k as int),
        decreases excess - k,
    {
        let s = found[k].clone();
        proof {
            text::lemma_texts_push(out@, s);
            assert(all.take(k + 1) =~= all.take(k as int).push(all[k as int]));
        }
        out.push(s);
        k = k + 1;
    }
    out
}

/// Every bundle that is exported counts as one when bundles are deleted.
pub proof fn law_bundles_are_found(time: Seq<char>)
    ensures
        is_bundle(named_bundle(time)),
{
    let n = named_bundle(time);
    assert(n.subrange(0, "diag-"@.len() as int) =~= "diag-"@);
    assert(n.subrange(n.len() - ".txt"@.len(), n.len() as int) =~= ".txt"@);
}

/// The log after a line was written, rotated or not.
pub open spec fn after_line(f: FileLog, line: Seq<char>) -> FileLog {
    if must_rotate(f, line) {
        grown(rotated(f, true), line)
    } else {
        grown(f, line)
    }
}

/// The log after line upon line.
pub open spec fn after_lines(f: FileLog, lines: Seq<Seq<char>>) -> FileLog
    decreases lines.len(),
{
    if lines.len() == 0 {
        f
    } else {
        after_line(after_lines(f, lines.drop_last()), lines.last())
    }
}

/// However much is logged, no file of the log grows beyond its bound, where each line by
/// itself stays within it.
pub proof fn law_log_is_bounded(f: FileLog, lines: Seq<Seq<char>>)
    requires
        f.written <= f.max_bytes,
        forall|i: int| 0 <= i < lines.len() ==> size(#[trigger] lines[i]) <= f.max_bytes,
    ensures
        after_lines(f, lines).written <= f.max_bytes,
        after_lines(f, lines).max_bytes == f.max_bytes,
    decreases lines.len(),
{
    if lines.len() > 0 {
        let before = lines.drop_last();
        assert forall|i: int| 0 <= i < before.len() implies size(#[trigger] before[i])
            <= f.max_bytes by {
            assert(before[i] == lines[i]);
        }
        law_log_is_bounded(f, before);
        assert(size(lines[lines.len() - 1]) <= f.max_bytes);
    }
}

/// What is left of the bundles is as many as are kept at most, and none of them stands before
/// one that was deleted.
pub proof fn law_newest_bundles_stay(all: Seq<Seq<char>>, keep: nat)
    requires
        text_map::sorted(all),
    ensures
        all.len() - excess(all.len(), keep) <= keep,
        excess(all.len(), keep) > 0 ==> all.len() - excess(all.len(), keep) == keep,
        forall|i: int, j: int|
            0 <= i < excess(all.len(), keep) <= j < all.len() ==> !text_map::precedes(
                #[trigger] all[j],
                #[trigger] all[i],
            ),
{
}

/// The level of a message goes by the words in it: any word of failure makes it an error,
/// whatever else it says; without one, any word of warning makes it a warning.
pub proof fn law_words_make_the_level(a: Seq<char>, b: Seq<char>, msg: Seq<char>)
    ensures
        level(a + "❌"@ + b) == "error"@,
        level(a + "失败"@ + b) == "error"@,
        level(a + "错误"@ + b) == "error"@,
        level(a + "被拒"@ + b) == "error"@,
        level(a + "警告"@ + b) != "info"@,
        level(a + "WARN"@ + b) != "info"@,
        level(a + "回退"@ + b) != "info"@,
        level(a + "耗尽"@ + b) != "info"@,
        level(msg) == "error"@ ==> text::occurs(msg, "❌"@) || text::occurs(msg, "失败"@)
            || text::occurs(msg, "错误"@) || text::occurs(msg, "被拒"@),
        level(msg) == "warn"@ ==> text::occurs(msg, "警告"@) || text::occurs(msg, "WARN"@)
            || text::occurs(msg, "回退"@) || text::occurs(msg, "耗尽"@),
        level(msg) == "error"@ || level(msg) == "warn"@ || level(msg) == "info"@,
{
    text::law_occurrence(a, "❌"@, b);
    text::law_occurrence(a, "失败"@, b);
    text::law_occurrence(a, "错误"@, b);
    text::law_occurrence(a, "被拒"@, b);
    text::law_occurrence(a, "警告"@, b);
    text::law_occurrence(a, "WARN"@, b);
    text::law_occurrence(a, "回退"@, b);
    text::law_occurrence(a, "耗尽"@, b);
    reveal_strlit("error");
    reveal_strlit("warn");
    reveal_strlit("info");
    assert("error"@[0] == 'e');
    assert("warn"@[0] == 'w');
    assert("info"@[0] == 'i');
}

/// Rounding gives a nearest number, and an even one where two are equally near.
pub proof fn law_rounding_is_nearest(n: nat, d: nat)
    requires
        d > 0,
    ensures
        2 * (half_even(n, d) * d) <= 2 * n + d,
        2 * n <= 2 * (half_even(n, d) * d) + d,
        2 * (half_even(n, d) * d) == 2 * n + d || 2 * n == 2 * (half_even(n, d) * d) + d
            ==> half_even(n, d) % 2 == 0,
        half_even(n * d, d) == n,
{
    let q = n / d;
    let r = n % d;
    vstd::arithmetic::div_mod::lemma_fundamental_div_mod(n as int, d as int);
    assert(q * d + r == n) by (nonlinear_arith)
        requires
            n == d * q + r,
    ;
    assert((q + 1) * d == q * d + d) by (nonlinear_arith);
    vstd::arithmetic::div_mod::lemma_mod_bound(n as int, d as int);
    vstd::arithmetic::div_mod::lemma_div_multiples_vanish(n as int, d as int);
    vstd::arithmetic::div_mod::lemma_mod_multiples_basic(n as int, d as int);
    assert(n * d == d * n) by (nonlinear_arith);
}

/// An amount of memory is written to the nearest tenth of a mebibyte: whole mebibytes, a point,
/// one digit and the unit. Up to eight pebibytes nothing is lost before that rounding.
pub proof fn law_memory_is_written_in_tenths(bytes: nat)
    ensures
        bytes < 0x20_0000_0000_0000 ==> {
            &&& 2 * (tenths(bytes) * 1_048_576) <= 20 * bytes + 1_048_576
            &&& 20 * bytes <= 2 * (tenths(bytes) * 1_048_576) + 1_048_576
        },
        text::ends_in(megabytes(bytes), " MB"@),
        megabytes(bytes) == text::decimal(tenths(bytes) / 10) + seq!['.'] + seq![
            text::digit(tenths(bytes) % 10),
        ] + " MB"@,
{
    if bytes < 0x20_0000_0000_0000 {
        law_rounding_is_nearest(bytes, 1);
        assert(half_even(bytes, 1) * 1 == half_even(bytes, 1));
        assert(bytes * 1 == bytes);
        assert(to_double(bytes) == bytes);
        law_rounding_is_nearest(bytes * 10, 1_048_576);
    }
    reveal_strlit(".");
    assert("."@ =~= seq!['.']);
    let head = text::decimal(tenths(bytes) / 10) + "."@ + text::decimal(tenths(bytes) % 10);
    text::lemma_says(head, Seq::empty(), Seq::empty(), " MB"@);
}

/// A line of the log holds the time, the level, the source and the message, in this order, and
/// ends in a line feed. One that is too long is replaced by one that gives its size.
pub proof fn law_line_holds_its_message(
    now: Seq<char>,
    level: Seq<char>,
    tag: Seq<char>,
    msg: Seq<char>,
)
    ensures
        now.is_prefix_of(whole_line(now, level, tag, msg)),
        text::ends_in(whole_line(now, level, tag, msg), msg + "\n"@),
        text::occurs(whole_line(now, level, tag, msg), "["@ + level + "] ["@ + tag + "]"@),
        size(whole_line(now, level, tag, msg)) <= 65_536 ==> log_line(now, level, tag, msg)
            == whole_line(now, level, tag, msg),
        size(whole_line(now, level, tag, msg)) > 65_536 ==> text::occurs(
            log_line(now, level, tag, msg),
            text::decimal(size(whole_line(now, level, tag, msg))) + "B"@,
        ),
{
    lemma_line_parts(now, level, tag, msg);
    let w = whole_line(now, level, tag, msg);
    let n = text::decimal(size(w));
    let remark = "(超长行 "@ + n + "B 已截断)"@;
    reveal_strlit("B 已截断)");
    reveal_strlit("B");
    assert("B 已截断)"@ =~= "B"@ + "B 已截断)"@.skip(1));
    lemma_in_line(now, level, tag, "(超长行 "@, n + "B"@, "B 已截断)"@.skip(1));
    assert("(超长行 "@ + (n + "B"@) + "B 已截断)"@.skip(1) =~= remark);
}

proof fn lemma_line_parts(now: Seq<char>, level: Seq<char>, tag: Seq<char>, msg: Seq<char>)
    ensures
        now.is_prefix_of(whole_line(now, level, tag, msg)),
        text::ends_in(whole_line(now, level, tag, msg), msg + "\n"@),
        text::occurs(whole_line(now, level, tag, msg), "["@ + level + "] ["@ + tag + "]"@),
{
    let w = whole_line(now, level, tag, msg);
    assert(w.take(now.len() as int) =~= now);
    let x = msg + "\n"@;
    assert(w.subrange(w.len() - x.len(), w.len() as int) =~= x);
    reveal_strlit(" [");
    reveal_strlit("[");
    reveal_strlit("] ");
    reveal_strlit("]");
    assert(" ["@ =~= seq![' '] + "["@);
    assert("] "@ =~= "]"@ + seq![' ']);
    let mid = "["@ + level + "] ["@ + tag + "]"@;
    let front = now + seq![' '];
    let back = seq![' '] + msg + "\n"@;
    text::law_occurrence(front, mid, back);
    assert(front + mid + back =~= w);
}

proof fn lemma_in_line(
    now: Seq<char>,
    level: Seq<char>,
    tag: Seq<char>,
    a: Seq<char>,
    x: Seq<char>,
    b: Seq<char>,
)
    ensures
        text::occurs(whole_line(now, level, tag, a + x + b), x),
{
    let front = now + " ["@ + level + "] ["@ + tag + "] "@ + a;
    let back = b + "\n"@;
    text::law_occurrence(front, x, back);
    assert(front + x + back =~= whole_line(now, level, tag, a + x + b));
}

/// The file is rotated exactly where a line would make it too large. The size that is kept is
/// then that of the line, and otherwise grows by it.
pub proof fn law_rotation_only_when_full(f: FileLog, line: Seq<char>)
    requires
        f.written + size(line) <= u64::MAX,
    ensures
        must_rotate(f, line) <==> f.written + size(line) > f.max_bytes,
        f.written + size(line) > f.max_bytes ==> after_line(f, line).written == size(line),
        f.written + size(line) <= f.max_bytes ==> after_line(f, line).written == f.written + size(
            line,
        ),
        rotated(f, true).written == 0 && rotated(f, true).open && !rotated(f, false).open,
        after_line(f, line).max_bytes == f.max_bytes,
{
}

/// A rotated file has the name of the log file, a point and its number, so that no two share
/// one.
pub proof fn law_rotated_files_are_numbered(name: Seq<char>, n: nat, m: nat)
    ensures
        text::cut_last(numbered(name, n), '.') == Some((name, text::decimal(n))),
        numbered(name, n) == numbered(name, m) ==> n == m,
        numbered(name, n) != name,
{
    lemma_numbered_cut(name, n);
    lemma_numbered_cut(name, m);
    text::law_numerals_differ(n, m);
    assert(numbered(name, n).len() > name.len());
}

proof fn lemma_numbered_cut(name: Seq<char>, n: nat)
    ensures
        text::cut_last(numbered(name, n), '.') == Some((name, text::decimal(n))),
        numbered(name, n).len() > name.len(),
{
    reveal_strlit(".");
    let s = numbered(name, n);
    let d = text::decimal(n);
    let i = name.len() as int;
    text::lemma_decimal_value(n);
    assert(s[i] == '.');
    assert forall|j: int| i < j < s.len() implies #[trigger] s[j] != '.' by {
        assert(s[j] == d[j - i - 1]);
        assert(text::is_digit(d[j - i - 1]));
    }
    text::lemma_cut_last(s, '.', i);
    assert(s.take(i) =~= name);
    assert(s.skip(i + 1) =~= d);
}

/// The bundles among files are those whose names begin with `diag-` and end in `.txt`, all of
/// them, in their order.
pub proof fn law_bundles_go_by_name(names: Seq<Seq<char>>, n: Seq<char>, time: Seq<char>)
    ensures
        bundles(Seq::empty()).len() == 0,
        "diag-"@.is_prefix_of(n) && text::ends_in(n, ".txt"@) ==> bundles(names.push(n))
            == bundles(names).push(n),
        !("diag-"@.is_prefix_of(n) && text::ends_in(n, ".txt"@)) ==> bundles(names.push(n))
            == bundles(names),
        text::occurs(named_bundle(time), time),
{
    assert(names.push(n).drop_last() =~= names);
    assert(names.push(n).last() == n);
    let d = "diag-"@;
    assert(d.len() <= n.len() ==> n.subrange(0, d.len() as int) =~= n.take(d.len() as int));
    text::law_occurrence("diag-"@, time, ".txt"@);
}

/// A log file in the bundle is named, and there in full; one that could not be read is left out.
pub proof fn law_bundle_holds_whole_files(name: Seq<char>, content: Seq<char>)
    ensures
        text::ends_in(bundle_part(name, Some(content)), content),
        text::occurs(bundle_part(name, Some(content)), name),
        bundle_part(name, None).len() == 0,
{
    text::lemma_says("\n---- "@, name, " ----\n"@, content);
}

/// Numbers of memory are rounded to 53 significant bits and no coarser: the numbers that can be
/// taken stand one apart below that many bits and twice as far apart for each bit more, and the
/// one that is taken is off by half their distance at most.
pub proof fn law_double_is_nearest(n: nat)
    ensures
        spacing(n) >= 1,
        n < 0x20_0000_0000_0000 ==> spacing(n) == 1,
        n >= 0x20_0000_0000_0000 ==> spacing(n) == 2 * spacing(n / 2),
        2 * to_double(n) <= 2 * n + spacing(n),
        2 * n <= 2 * to_double(n) + spacing(n),
        n < 0x20_0000_0000_0000 ==> to_double(n) == n,
    decreases n,
{
    if n >= 0x20_0000_0000_0000 {
        law_double_is_nearest(n / 2);
    }
    law_rounding_is_nearest(n, spacing(n));
}

/// The size of a text is the number of its bytes in UTF-8, which for ASCII is that of its
/// characters.
pub proof fn law_size_is_in_bytes(a: Seq<char>)
    ensures
        size(a) == vstd::utf8::encode_utf8(a).len(),
        vstd::utf8::is_ascii_chars(a) ==> size(a) == a.len(),
{
    if vstd::utf8::is_ascii_chars(a) {
        vstd::utf8::is_ascii_chars_encode_utf8(a);
    }
}

/// Of the bundles, those that are deleted are the first in dictionary order, and they are all
/// bundles of the directory: none that stays stands in front of one that goes, as many stay as
/// are to be kept, and nothing goes where there are not more.
pub proof fn law_oldest_bundles_go(
    all: Seq<Seq<char>>,
    names: Seq<Seq<char>>,
    keep: nat,
    i: int,
    j: int,
)
    requires
        is_sorted_of(all, bundles(names)),
    ensures
        all.len() == bundles(names).len(),
        forall|n: Seq<char>| #[trigger] all.contains(n) <==> bundles(names).contains(n),
        0 <= i < j < all.len() ==> !text_map::precedes(all[j], all[i]),
        all.len() <= keep ==> all.take(excess(all.len(), keep)).len() == 0,
        all.len() > keep ==> all.take(excess(all.len(), keep)).len() == all.len() - keep,
{
    let b = bundles(names);
    broadcast use vstd::seq_lib::group_to_multiset_ensures;

    assert(all.to_multiset().len() == b.to_multiset().len());
    assert forall|n: Seq<char>| #[trigger] all.contains(n) <==> b.contains(n) by {
        assert(all.contains(n) <==> all.to_multiset().count(n) > 0);
        assert(b.contains(n) <==> b.to_multiset().count(n) > 0);
    }
}

/// A step of a rotation is carried out as it is: it removes the file that it names, or gives the
/// first of its files the name of the second. A text that may be there is that text.
pub proof fn law_step_is_carried_out_as_it_is(a: String, b: String, t: &str)
    ensures
        RotateStep::Remove(a)@ == StepView::Remove(a@),
        RotateStep::Rename(a, b)@ == StepView::Rename(a@, b@),
        maybe_str(Some(t)) == Some(t@),
        maybe_str(None) is None,
{
}

} // verus!
