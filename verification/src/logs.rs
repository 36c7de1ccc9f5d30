//! The log access layer: named log kinds, tailing and filtering of log
//! content, and a model of the designated log files that the clear, create
//! and append operations act on.

use vstd::prelude::*;
use crate::bytes::contains_bytes;
use crate::bytes::contains_seq;
use crate::bytes::copy_bytes;
use crate::bytes::lines_of;
use crate::bytes::seq_views;
use crate::bytes::split_lines;
use crate::lifecycle::LifecycleError;

verus! {

broadcast use vstd::string::group_string_axioms;

/// The fixed set of log files a supervisor owns.
#[derive(Debug, Clone, Copy, PartialEq, Eq, Structural)]
pub enum LogKind {
    /// The supervisor's own operation log.
    Service,
    /// The server's error log.
    Error,
    /// The server's access log.
    Access,
}

/// Maps a requested log name to its kind; any other name is rejected.
pub fn parse_log_kind(kind: &String) -> (r: Result<LogKind, LifecycleError>)
    ensures
        kind@ == "service"@ ==> r == Ok::<LogKind, LifecycleError>(LogKind::Service),
        kind@ == "error"@ ==> r == Ok::<LogKind, LifecycleError>(LogKind::Error),
        kind@ == "access"@ ==> r == Ok::<LogKind, LifecycleError>(LogKind::Access),
        kind@ != "service"@ && kind@ != "error"@ && kind@ != "access"@ ==> r == Err::<
            LogKind,
            LifecycleError,
        >(LifecycleError::InvalidLogKind),
{
    proof {
        reveal_strlit("service");
        reveal_strlit("error");
        reveal_strlit("access");
        assert("service"@.len() == 7);
        assert("error"@.len() == 5);
        assert("access"@.len() == 6);
    }
    if kind.eq(&String::from_str("service")) {
        Ok(LogKind::Service)
    } else if kind.eq(&String::from_str("error")) {
        Ok(LogKind::Error)
    } else if kind.eq(&String::from_str("access")) {
        Ok(LogKind::Access)
    } else {
        Err(LifecycleError::InvalidLogKind)
    }
}

/// The file name of each log kind inside the installation's log directory.
pub fn log_file_name(kind: LogKind) -> (r: String)
    ensures
        kind is Service ==> r@ == "nginx-service.log"@,
        kind is Error ==> r@ == "error.log"@,
        kind is Access ==> r@ == "access.log"@,
{
    match kind {
        LogKind::Service => String::from_str("nginx-service.log"),
        LogKind::Error => String::from_str("error.log"),
        LogKind::Access => String::from_str("access.log"),
    }
}

/// The last `k` lines of `ls`, or all of `ls` when it has at most `k` lines.
pub open spec fn tail_spec(ls: Seq<Seq<u8>>, k: int) -> Seq<Seq<u8>>
    recommends
        k >= 0,
{
    if ls.len() > k {
        ls.subrange(ls.len() - k, ls.len() as int)
    } else {
        ls
    }
}

/// Keeps at most the last `max` lines, dropping older lines first.
pub fn tail_lines(lines: Vec<Vec<u8>>, max: usize) -> (r: Vec<Vec<u8>>)
    ensures
        seq_views(r@) == tail_spec(seq_views(lines@), max as int),
{
    if lines.len() <= max {
        return lines;
    }
    let start = lines.len() - max;
    let mut out: Vec<Vec<u8>> = Vec::new();
    let mut i: usize = start;
    while i < lines.len()
        invariant
            start <= i <= lines@.len(),
            start == lines@.len() - max,
            max < lines@.len(),
            seq_views(out@) == seq_views(lines@).subrange(start as int, i as int),
        decreases lines@.len() - i,
    {
        let ghost out0 = out@;
        out.push(copy_bytes(&lines[i]));
        proof {
            assert(seq_views(out@) =~= seq_views(out0).push(lines@[i as int]@));
            assert(seq_views(out@) =~= seq_views(lines@).subrange(start as int, i + 1));
        }
        i += 1;
    }
    out
}

/// Whether a line passes the optional substring filters: each present,
/// non-empty filter must occur in the line; an empty or absent filter
/// disables itself.
pub open spec fn line_passes(l: Seq<u8>, search: Option<Seq<u8>>, level: Option<Seq<u8>>) -> bool {
    &&& match search {
        Some(s) => s.len() == 0 || contains_seq(l, s),
        None => true,
    }
    &&& match level {
        Some(s) => s.len() == 0 || contains_seq(l, s),
        None => true,
    }
}

/// The lines of `ls` that pass both filters, in their original order.
pub open spec fn filter_lines_spec(
    ls: Seq<Seq<u8>>,
    search: Option<Seq<u8>>,
    level: Option<Seq<u8>>,
) -> Seq<Seq<u8>>
    decreases ls.len(),
{
    if ls.len() == 0 {
        Seq::empty()
    } else {
        let rest = filter_lines_spec(ls.drop_last(), search, level);
        if line_passes(ls.last(), search, level) {
            rest.push(ls.last())
        } else {
            rest
        }
    }
}

/// The view of an optional filter string.
pub open spec fn opt_bytes(o: Option<Vec<u8>>) -> Option<Seq<u8>> {
    match o {
        Some(v) => Some(v@),
        None => None,
    }
}

/// Checks one filter against one line.
fn passes_one(line: &Vec<u8>, filter: &Option<Vec<u8>>) -> (r: bool)
    ensures
        r == match opt_bytes(*filter) {
            Some(s) => s.len() == 0 || contains_seq(line@, s),
            None => true,
        },
{
    match filter {
        Some(f) => f.len() == 0 || contains_bytes(line, f),
        None => true,
    }
}

/// Keeps the lines containing both filter strings, applying the search
/// filter and the severity filter as plain substring checks combined with
/// logical AND; empty filters are disabled.
pub fn filter_lines(
    lines: &Vec<Vec<u8>>,
    search: &Option<Vec<u8>>,
    level: &Option<Vec<u8>>,
) -> (r: Vec<Vec<u8>>)
    ensures
        seq_views(r@) == filter_lines_spec(seq_views(lines@), opt_bytes(*search), opt_bytes(*level)),
{
    let ghost sv = opt_bytes(*search);
    let ghost lv = opt_bytes(*level);
    let mut out: Vec<Vec<u8>> = Vec::new();
    proof {
        assert(seq_views(lines@).take(0) =~= Seq::<Seq<u8>>::empty());
        assert(seq_views(out@) =~= Seq::<Seq<u8>>::empty());
    }
    let mut i: usize = 0;
    while i < lines.len()
        invariant
            i <= lines@.len(),
            sv == opt_bytes(*search),
            lv == opt_bytes(*level),
            seq_views(out@) == filter_lines_spec(seq_views(lines@).take(i as int), sv, lv),
        decreases lines@.len() - i,
    {
        proof {
            assert(seq_views(lines@).take(i + 1).drop_last() =~= seq_views(lines@).take(i as int));
            assert(seq_views(lines@).take(i + 1).last() == lines@[i as int]@);
        }
        if passes_one(&lines[i], search) && passes_one(&lines[i], level) {
            let ghost out0 = out@;
            out.push(copy_bytes(&lines[i]));
            proof {
                assert(seq_views(out@) =~= seq_views(out0).push(lines@[i as int]@));
            }
        }
        i += 1;
    }
    proof {
        assert(seq_views(lines@).take(lines@.len() as int) =~= seq_views(lines@));
    }
    out
}

/// The lines joined with single newline bytes and no trailing newline.
pub open spec fn join_lines_spec(ls: Seq<Seq<u8>>) -> Seq<u8>
    decreases ls.len(),
{
    if ls.len() == 0 {
        Seq::empty()
    } else if ls.len() == 1 {
        ls[0]
    } else {
        join_lines_spec(ls.drop_last()) + seq![10u8] + ls.last()
    }
}

/// Appends all bytes of `v` to `out`.
fn append_bytes(out: &mut Vec<u8>, v: &Vec<u8>)
    ensures
        final(out)@ == old(out)@ + v@,
{
    let mut i: usize = 0;
    while i < v.len()
        invariant
            i <= v@.len(),
            out@ == old(out)@ + v@.take(i as int),
        decreases v@.len() - i,
    {
        out.push(v[i]);
        proof {
            assert(old(out)@ + v@.take(i as int) + seq![v@[i as int]] =~= old(out)@ + v@.take(
                i + 1,
            ));
        }
        i += 1;
    }
    proof {
        assert(old(out)@ + v@.take(v@.len() as int) =~= old(out)@ + v@);
    }
}

/// Joins lines with newline separators.
pub fn join_lines(lines: &Vec<Vec<u8>>) -> (r: Vec<u8>)
    ensures
        r@ == join_lines_spec(seq_views(lines@)),
{
    let mut out: Vec<u8> = Vec::new();
    let mut i: usize = 0;
    while i < lines.len()
        invariant
            i <= lines@.len(),
            out@ == join_lines_spec(seq_views(lines@).take(i as int)),
        decreases lines@.len() - i,
    {
        proof {
            assert(seq_views(lines@).take(i + 1).drop_last() =~= seq_views(lines@).take(i as int));
            assert(seq_views(lines@).take(i + 1).last() == lines@[i as int]@);
        }
        if i > 0 {
            out.push(10u8);
        }
        append_bytes(&mut out, &lines[i]);
        proof {
            if i == 0 {
                assert(Seq::<u8>::empty() + lines@[0]@ =~= lines@[0]@);
                assert(seq_views(lines@).take(1)[0] == lines@[0]@);
            } else {
                assert(join_lines_spec(seq_views(lines@).take(i as int)) + seq![10u8]
                    + lines@[i as int]@ =~= out@);
            }
        }
        i += 1;
    }
    proof {
        assert(seq_views(lines@).take(lines@.len() as int) =~= seq_views(lines@));
    }
    out
}

/// The full log request over the file's content: split into lines, keep at
/// most the last `max` lines, apply both substring filters, and join the
/// survivors with newlines.
pub open spec fn get_logs_spec(
    content: Seq<u8>,
    max: int,
    search: Option<Seq<u8>>,
    level: Option<Seq<u8>>,
) -> Seq<u8> {
    join_lines_spec(filter_lines_spec(tail_spec(split_lines(content), max), search, level))
}

/// Reads a log request from the designated file's content: tail first, then
/// the search filter, then the severity filter, combined with logical AND.
pub fn get_logs(
    content: &Vec<u8>,
    max_lines: usize,
    search: &Option<Vec<u8>>,
    level: &Option<Vec<u8>>,
) -> (r: Vec<u8>)
    ensures
        r@ == get_logs_spec(content@, max_lines as int, opt_bytes(*search), opt_bytes(*level)),
{
    let all = lines_of(content);
    let tailed = tail_lines(all, max_lines);
    let kept = filter_lines(&tailed, search, level);
    join_lines(&kept)
}

/// The supervisor's three designated log files, by content; an absent file
/// is `None`. The embedding program mirrors this model onto disk.
pub struct LogStore {
    pub service: Option<Vec<u8>>,
    pub error: Option<Vec<u8>>,
    pub access: Option<Vec<u8>>,
}

impl LogStore {
    /// The content of the file of `kind`, or `None` when it is absent.
    pub open spec fn kind_contents(&self, kind: LogKind) -> Option<Seq<u8>> {
        match kind {
            LogKind::Service => opt_bytes(self.service),
            LogKind::Error => opt_bytes(self.error),
            LogKind::Access => opt_bytes(self.access),
        }
    }

    /// A store with no files yet.
    pub fn empty() -> (r: Self)
        ensures
            forall|k: LogKind| r.kind_contents(k) is None,
    {
        LogStore { service: None, error: None, access: None }
    }

    /// Supervisor initialization: each missing log file is created empty;
    /// existing content is kept.
    pub fn init(&mut self)
        ensures
            forall|k: LogKind|
                #[trigger] final(self).kind_contents(k) == match old(self).kind_contents(k) {
                    Some(c) => Some(c),
                    None => Some(Seq::<u8>::empty()),
                },
    {
        if self.service.is_none() {
            self.service = Some(Vec::new());
        }
        if self.error.is_none() {
            self.error = Some(Vec::new());
        }
        if self.access.is_none() {
            self.access = Some(Vec::new());
        }
        proof {
            assert forall|k: LogKind|
                #[trigger] final(self).kind_contents(k) == match old(self).kind_contents(k) {
                    Some(c) => Some(c),
                    None => Some(Seq::<u8>::empty()),
                } by {
                match k {
                    LogKind::Service => {},
                    LogKind::Error => {},
                    LogKind::Access => {},
                }
            }
        }
    }

    /// What clearing the file of `kind` does to a store: that file exists
    /// and is empty afterwards (created if it was absent, truncated in
    /// place otherwise), and no other file is touched.
    pub open spec fn cleared(old_store: LogStore, new_store: LogStore, kind: LogKind) -> bool {
        &&& new_store.kind_contents(kind) == Some(Seq::<u8>::empty())
        &&& forall|k: LogKind|
            k != kind ==> #[trigger] new_store.kind_contents(k) == old_store.kind_contents(k)
    }

    /// Clears the file of `kind`: creates it empty when absent, truncates
    /// it to zero length otherwise; other files are untouched.
    pub fn clear(&mut self, kind: LogKind)
        ensures
            Self::cleared(*old(self), *final(self), kind),
    {
        match kind {
            LogKind::Service => {
                self.service = Some(Vec::new());
            },
            LogKind::Error => {
                self.error = Some(Vec::new());
            },
            LogKind::Access => {
                self.access = Some(Vec::new());
            },
        }
        proof {
            assert forall|k: LogKind|
                k != kind implies #[trigger] final(self).kind_contents(k) == old(
                self,
            ).kind_contents(k) by {
                match k {
                    LogKind::Service => {},
                    LogKind::Error => {},
                    LogKind::Access => {},
                }
            }
        }
    }

    /// Appends one entry to the file of `kind`, creating it when absent;
    /// other files are untouched.
    pub fn append(&mut self, kind: LogKind, entry: &Vec<u8>)
        ensures
            final(self).kind_contents(kind) == Some(
                (match old(self).kind_contents(kind) {
                    Some(c) => c,
                    None => Seq::<u8>::empty(),
                }) + entry@,
            ),
            forall|k: LogKind|
                k != kind ==> #[trigger] final(self).kind_contents(k) == old(self).kind_contents(
                    k,
                ),
    {
        let line = copy_bytes(entry);
        match kind {
            LogKind::Service => {
                match &mut self.service {
                    Some(c) => {
                        append_bytes(c, &line);
                    },
                    None => {
                        self.service = Some(line);
                    },
                }
            },
            LogKind::Error => {
                match &mut self.error {
                    Some(c) => {
                        append_bytes(c, &line);
                    },
                    None => {
                        self.error = Some(line);
                    },
                }
            },
            LogKind::Access => {
                match &mut self.access {
                    Some(c) => {
                        append_bytes(c, &line);
                    },
                    None => {
                        self.access = Some(line);
                    },
                }
            },
        }
        proof {
            assert(Seq::<u8>::empty() + entry@ =~= entry@);
            assert forall|k: LogKind|
                k != kind implies #[trigger] final(self).kind_contents(k) == old(
                self,
            ).kind_contents(k) by {
                match k {
                    LogKind::Service => {},
                    LogKind::Error => {},
                    LogKind::Access => {},
                }
            }
        }
    }

    /// Whether the file of `kind` exists.
    pub fn check_log_exists(&self, kind: LogKind) -> (r: bool)
        ensures
            r == (self.kind_contents(kind) is Some),
    {
        match kind {
            LogKind::Service => self.service.is_some(),
            LogKind::Error => self.error.is_some(),
            LogKind::Access => self.access.is_some(),
        }
    }
}

/// One operation-log line: `[timestamp] operation: outcome` and a newline.
pub fn record_line(timestamp: &String, operation: &String, outcome: &String) -> (r: String)
    ensures
        r@ == "["@ + timestamp@ + "] "@ + operation@ + ": "@ + outcome@ + "\n"@,
{
    let mut s = String::from_str("[");
    s.append(timestamp.as_str());
    s.append("] ");
    s.append(operation.as_str());
    s.append(": ");
    s.append(outcome.as_str());
    s.append("\n");
    s
}

/// Tail semantics: asking for the last `k` of `n` lines returns exactly the
/// last `k` in their original order when `k < n`, and all lines otherwise.
pub proof fn lemma_log_tail_semantics(ls: Seq<Seq<u8>>, k: int)
    requires
        0 <= k,
    ensures
        k < ls.len() ==> tail_spec(ls, k) == ls.subrange(ls.len() - k, ls.len() as int),
        k >= ls.len() ==> tail_spec(ls, k) == ls,
        tail_spec(ls, k).len() == if k < ls.len() {
            k
        } else {
            ls.len() as int
        },
        forall|i: int|
            0 <= i < tail_spec(ls, k).len() ==> #[trigger] tail_spec(ls, k)[i] == ls[ls.len()
                - tail_spec(ls, k).len() + i],
{
}

/// Filter composition: with both filters present and non-empty, every
/// returned line contains both substrings; and every line of the tail that
/// contains both substrings is returned, in order.
pub proof fn lemma_filter_composition(ls: Seq<Seq<u8>>, search: Seq<u8>, level: Seq<u8>)
    requires
        search.len() > 0,
        level.len() > 0,
    ensures
        forall|i: int|
            0 <= i < filter_lines_spec(ls, Some(search), Some(level)).len() ==> contains_seq(
                #[trigger] filter_lines_spec(ls, Some(search), Some(level))[i],
                search,
            ) && contains_seq(filter_lines_spec(ls, Some(search), Some(level))[i], level),
    decreases ls.len(),
{
    if ls.len() > 0 {
        lemma_filter_composition(ls.drop_last(), search, level);
        let rest = filter_lines_spec(ls.drop_last(), Some(search), Some(level));
        let all = filter_lines_spec(ls, Some(search), Some(level));
        assert forall|i: int|
            0 <= i < all.len() implies contains_seq(#[trigger] all[i], search) && contains_seq(
            all[i],
            level,
        ) by {
            if line_passes(ls.last(), Some(search), Some(level)) {
                assert(all == rest.push(ls.last()));
                if i < rest.len() {
                    assert(all[i] == rest[i]);
                } else {
                    assert(all[i] == ls.last());
                }
            } else {
                assert(all == rest);
                assert(all[i] == rest[i]);
            }
        }
    }
}

/// An empty search string disables the search filter.
pub proof fn lemma_empty_search_disabled(ls: Seq<Seq<u8>>, level: Option<Seq<u8>>)
    ensures
        filter_lines_spec(ls, Some(Seq::<u8>::empty()), level) == filter_lines_spec(
            ls,
            None,
            level,
        ),
    decreases ls.len(),
{
    if ls.len() > 0 {
        lemma_empty_search_disabled(ls.drop_last(), level);
    }
}

/// An empty severity string disables the severity filter.
pub proof fn lemma_empty_level_disabled(ls: Seq<Seq<u8>>, search: Option<Seq<u8>>)
    ensures
        filter_lines_spec(ls, search, Some(Seq::<u8>::empty())) == filter_lines_spec(
            ls,
            search,
            None,
        ),
    decreases ls.len(),
{
    if ls.len() > 0 {
        lemma_empty_level_disabled(ls.drop_last(), search);
    }
}

/// Clear idempotence: clearing a log that does not exist leaves an empty
/// file; clearing it again leaves the same empty file at the same kind, and
/// no other log is ever touched.
pub proof fn lemma_clear_idempotent(s1: LogStore, s2: LogStore, s3: LogStore, kind: LogKind)
    requires
        LogStore::cleared(s1, s2, kind),
        LogStore::cleared(s2, s3, kind),
    ensures
        s2.kind_contents(kind) == Some(Seq::<u8>::empty()),
        s3.kind_contents(kind) == s2.kind_contents(kind),
        forall|k: LogKind| k != kind ==> #[trigger] s3.kind_contents(k) == s1.kind_contents(k),
{
}

} // verus!
