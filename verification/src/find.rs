//! The filter configuration and the predicate it compiles to.

use vstd::prelude::*;
use crate::error::FindError;
use crate::pattern::{pattern_matches, Pattern};
use crate::preamble::PreambleView;
use crate::record::{basename, spec_basename, text_of, ObjectExport, ObjectMeta, RecordView};
use crate::root::{root_source, spec_root_source, RootSource};
use crate::timestamp::{current_time, Timestamp};

verus! {

/// The criteria a record is held against. A criterion that is `None` is
/// absent and holds of every record.
pub struct Criteria {
    /// Regular expression that the full location must match.
    pub path: Option<Seq<char>>,
    /// Regular expression that the final path segment must match.
    pub basename: Option<Seq<char>>,
    /// Keep the records that fail the criteria instead of those that meet them.
    pub invert: bool,
    /// Smallest size in bytes.
    pub min_size: Option<usize>,
    /// Largest size in bytes.
    pub max_size: Option<usize>,
    /// Earliest modification time.
    pub after_absolute: Option<Timestamp>,
    /// Latest modification time.
    pub before_absolute: Option<Timestamp>,
    /// Modified no longer than this many seconds ago.
    pub after: Option<i64>,
    /// Modified at least this many seconds ago.
    pub before: Option<i64>,
}

/// What was observed outside the record while judging it: whether each
/// pattern matched, and the clock reading taken for each relative bound.
/// A field whose criterion is absent is not looked at.
#[derive(Debug, Clone, Copy, PartialEq, Eq, Structural)]
pub struct Evidence {
    /// The path pattern matched the full location.
    pub path_hit: bool,
    /// The basename pattern matched the final path segment.
    pub basename_hit: bool,
    /// The clock as read for the `after` bound.
    pub now_after: Timestamp,
    /// The clock as read for the `before` bound.
    pub now_before: Timestamp,
}

impl Criteria {
    /// The criteria that hold of every record.
    pub open spec fn none() -> Criteria {
        Criteria {
            path: None,
            basename: None,
            invert: false,
            min_size: None,
            max_size: None,
            after_absolute: None,
            before_absolute: None,
            after: None,
            before: None,
        }
    }

    /// Neither relative time bound is set, so no clock is read.
    pub open spec fn is_timeless(self) -> bool {
        self.after is None && self.before is None
    }

    /// Every criterion that is present holds of `record`.
    pub open spec fn conjunction(self, record: RecordView, seen: Evidence) -> bool {
        &&& self.path is Some ==> seen.path_hit
        &&& self.basename is Some ==> seen.basename_hit
        &&& self.min_size matches Some(least) ==> record.size >= least
        &&& self.max_size matches Some(most) ==> record.size <= most
        &&& self.after_absolute matches Some(bound) ==> bound@.le(record.last_modified@)
        &&& self.before_absolute matches Some(bound) ==> record.last_modified@.le(bound@)
        &&& self.after matches Some(seconds) ==> seen.now_after@.seconds_before(seconds as int).le(
            record.last_modified@,
        )
        &&& self.before matches Some(seconds) ==> record.last_modified@.le(
            seen.now_before@.seconds_before(seconds as int),
        )
    }

    /// Whether `record` is forwarded: the conjunction, flipped by `invert`.
    pub open spec fn decision(self, record: RecordView, seen: Evidence) -> bool {
        self.conjunction(record, seen) != self.invert
    }

    /// What the patterns say of `record`, with the given clock readings.
    pub open spec fn evidence(self, record: RecordView, now_after: Timestamp, now_before: Timestamp)
        -> Evidence {
        Evidence {
            path_hit: match self.path {
                Some(pattern) => pattern_matches(pattern, record.location),
                None => true,
            },
            basename_hit: match self.basename {
                Some(pattern) => pattern_matches(pattern, spec_basename(record.location)),
                None => true,
            },
            now_after,
            now_before,
        }
    }

    /// Whether `record` is forwarded when the clock reads `now_after` for
    /// the `after` bound and `now_before` for the `before` bound.
    pub open spec fn accepts(self, record: RecordView, now_after: Timestamp, now_before: Timestamp)
        -> bool {
        self.decision(record, self.evidence(record, now_after, now_before))
    }

    /// `forward` is a verdict the filter can reach on `record`: the one it
    /// reaches for some pair of clock readings.
    pub open spec fn may_decide(self, record: RecordView, forward: bool) -> bool {
        exists|now_after: Timestamp, now_before: Timestamp|
            forward == #[trigger] self.accepts(record, now_after, now_before)
    }

    /// `output` is what filtering `records` gives when the verdict on each
    /// record is the one in `verdicts`, and each of those is a verdict the
    /// filter can reach.
    pub open spec fn is_selection(
        self,
        records: Seq<RecordView>,
        verdicts: Seq<bool>,
        output: Seq<RecordView>,
    ) -> bool {
        &&& verdicts.len() == records.len()
        &&& forall|i: int|
            0 <= i < records.len() ==> self.may_decide(records[i], #[trigger] verdicts[i])
        &&& output == forwarded(records, verdicts)
    }
}

/// The records whose verdict is to forward, in the order they came.
pub open spec fn forwarded(records: Seq<RecordView>, verdicts: Seq<bool>) -> Seq<RecordView>
    decreases records.len(),
{
    if records.len() == 0 || verdicts.len() != records.len() {
        Seq::empty()
    } else if verdicts.last() {
        forwarded(records.drop_last(), verdicts.drop_last()).push(records.last())
    } else {
        forwarded(records.drop_last(), verdicts.drop_last())
    }
}

/// What a list of listed records says.
pub open spec fn listed_views(records: Seq<ObjectMeta>) -> Seq<RecordView> {
    records.map_values(|record: ObjectMeta| record@)
}

/// What a list of wire records says.
pub open spec fn export_views(records: Seq<ObjectExport>) -> Seq<RecordView> {
    records.map_values(|record: ObjectExport| record@)
}

/// The filter configuration of one invocation.
#[derive(Debug, Clone, PartialEq, Eq)]
pub struct Find {
    /// The path to recurse from. If absent, object metadata is read from the
    /// input stream.
    pub root: Option<String>,
    /// Objects' full paths must match this regex.
    pub path_match: Option<String>,
    /// Objects' basenames must match this regex.
    pub basename_match: Option<String>,
    /// Invert the meaning of the filter: only show objects that don't match.
    pub invert: bool,
    /// Objects should be at least this size in bytes.
    pub min_size: Option<usize>,
    /// Objects should be at most this size in bytes.
    pub max_size: Option<usize>,
    /// Objects should have been modified at or after this time.
    pub after_absolute: Option<Timestamp>,
    /// Objects should have been modified at or before this time.
    pub before_absolute: Option<Timestamp>,
    /// Objects should have been modified after this many seconds ago.
    pub after: Option<i64>,
    /// Objects should have been modified before this many seconds ago.
    pub before: Option<i64>,
}

impl Default for Find {
    /// No root and no criteria.
    fn default() -> (find: Find)
        ensures
            find.root is None,
            find.criteria() == Criteria::none(),
    {
        Find {
            root: None,
            path_match: None,
            basename_match: None,
            invert: false,
            min_size: None,
            max_size: None,
            after_absolute: None,
            before_absolute: None,
            after: None,
            before: None,
        }
    }
}

/// A compiled filter: the criteria of a [`Find`] with its patterns ready to
/// be matched.
#[derive(Debug)]
pub struct Filter {
    path: Option<Pattern>,
    basename: Option<Pattern>,
    invert: bool,
    min_size: Option<usize>,
    max_size: Option<usize>,
    after_absolute: Option<Timestamp>,
    before_absolute: Option<Timestamp>,
    after: Option<i64>,
    before: Option<i64>,
}

/// The text of an optional pattern.
pub open spec fn pattern_text(pattern: Option<Pattern>) -> Option<Seq<char>> {
    match pattern {
        Some(p) => Some(p@),
        None => None,
    }
}

/// The outcome of compiling a pattern that a configuration may or may not
/// have: `None` when it has none.
pub type Compiled = Option<Result<Pattern, FindError>>;

/// The pattern did not compile.
pub open spec fn is_rejected(outcome: Compiled) -> bool {
    outcome matches Some(Err(_))
}

/// The text of the pattern that was compiled, if there was one and it did.
pub open spec fn compiled_text(outcome: Compiled) -> Option<Seq<char>> {
    match outcome {
        Some(Ok(pattern)) => Some(pattern@),
        _ => None,
    }
}

impl View for Filter {
    type V = Criteria;

    closed spec fn view(&self) -> Criteria {
        Criteria {
            path: pattern_text(self.path),
            basename: pattern_text(self.basename),
            invert: self.invert,
            min_size: self.min_size,
            max_size: self.max_size,
            after_absolute: self.after_absolute,
            before_absolute: self.before_absolute,
            after: self.after,
            before: self.before,
        }
    }
}

impl Find {
    /// The criteria this configuration asks for.
    pub open spec fn criteria(self) -> Criteria {
        Criteria {
            path: text_of(self.path_match),
            basename: text_of(self.basename_match),
            invert: self.invert,
            min_size: self.min_size,
            max_size: self.max_size,
            after_absolute: self.after_absolute,
            before_absolute: self.before_absolute,
            after: self.after,
            before: self.before,
        }
    }

    /// Where this run takes its listing from: the input stream when no root
    /// is configured, else the root as an absolute URL, or as a local path
    /// when it does not parse as one.
    pub fn base_url(&self) -> (source: RootSource)
        ensures
            source@ == spec_root_source(text_of(self.root)),
    {
        match &self.root {
            Some(root) => root_source(Some(root.as_str())),
            None => root_source(None),
        }
    }

    /// Compiles the patterns this configuration has. A configuration
    /// without patterns always compiles; one with a pattern that is not a
    /// valid regular expression gives `InvalidPattern`.
    pub fn compile(&self) -> (r: Result<Filter, FindError>)
        ensures
            self.path_match is None && self.basename_match is None ==> r is Ok,
            r matches Ok(filter) ==> filter@ == self.criteria(),
            r matches Err(e) ==> e == FindError::InvalidPattern && !(self.path_match is None
                && self.basename_match is None),
    {
        let path = match &self.path_match {
            Some(source) => Some(Pattern::new(source.as_str())),
            None => None,
        };
        let basename = match &self.basename_match {
            Some(source) => Some(Pattern::new(source.as_str())),
            None => None,
        };
        Filter::assemble(self, path, basename)
    }

    /// Runs the filter over records that are at hand: compiles the patterns
    /// and keeps the records the filter forwards, in the order they came.
    /// Nothing is filtered if a pattern does not compile.
    pub fn run(&self, records: Vec<ObjectMeta>) -> (r: Result<Vec<ObjectExport>, FindError>)
        ensures
            self.path_match is None && self.basename_match is None ==> r is Ok,
            r matches Ok(output) ==> exists|verdicts: Seq<bool>| #[trigger]
                self.criteria().is_selection(listed_views(records@), verdicts, export_views(output@)),
            r matches Err(e) ==> e == FindError::InvalidPattern && !(self.path_match is None
                && self.basename_match is None),
    {
        let filter = match self.compile() {
            Ok(filter) => filter,
            Err(e) => {
                return Err(e);
            },
        };
        let ghost given = listed_views(records@);
        let output = filter.select_all(records);
        let r: Result<Vec<ObjectExport>, FindError> = Ok(output);
        proof {
            let verdicts = choose|verdicts: Seq<bool>| #[trigger]
                filter@.is_selection(given, verdicts, export_views(output@));
            assert(self.criteria().is_selection(given, verdicts, export_views(r->Ok_0@)));
        }
        r
    }
}

impl Filter {
    /// The filter with the thresholds of `config` and the given patterns.
    pub fn new(config: &Find, path: Option<Pattern>, basename: Option<Pattern>) -> (filter: Filter)
        ensures
            filter@ == (Criteria {
                path: pattern_text(path),
                basename: pattern_text(basename),
                ..config.criteria()
            }),
    {
        Filter {
            path,
            basename,
            invert: config.invert,
            min_size: config.min_size,
            max_size: config.max_size,
            after_absolute: config.after_absolute,
            before_absolute: config.before_absolute,
            after: config.after,
            before: config.before,
        }
    }

    /// The filter for `config`, from the outcome of compiling each of its
    /// patterns: the filter with those patterns when every pattern there
    /// was compiled, and `InvalidPattern` when one did not.
    pub fn assemble(config: &Find, path: Compiled, basename: Compiled) -> (r: Result<
        Filter,
        FindError,
    >)
        ensures
            r is Ok <==> !is_rejected(path) && !is_rejected(basename),
            r matches Ok(filter) ==> filter@ == (Criteria {
                path: compiled_text(path),
                basename: compiled_text(basename),
                ..config.criteria()
            }),
            r matches Err(e) ==> e == FindError::InvalidPattern,
    {
        let path = match path {
            Some(Ok(pattern)) => Some(pattern),
            Some(Err(_)) => {
                return Err(FindError::InvalidPattern);
            },
            None => None,
        };
        let basename = match basename {
            Some(Ok(pattern)) => Some(pattern),
            Some(Err(_)) => {
                return Err(FindError::InvalidPattern);
            },
            None => None,
        };
        Ok(Filter::new(config, path, basename))
    }

    /// Decides on `record` from what was observed: the record is forwarded
    /// when every present criterion holds, or, with `invert`, when one fails.
    pub fn decide(&self, record: &ObjectMeta, seen: &Evidence) -> (forward: bool)
        ensures
            forward == self@.decision(record@, *seen),
    {
        let mut valid = true;
        if self.path.is_some() {
            valid = valid && seen.path_hit;
        }
        if self.basename.is_some() {
            valid = valid && seen.basename_hit;
        }
        if let Some(least) = self.min_size {
            valid = valid && record.size >= least;
        }
        if let Some(most) = self.max_size {
            valid = valid && record.size <= most;
        }
        if let Some(bound) = self.after_absolute {
            valid = valid && record.last_modified.at_or_after(&bound);
        }
        if let Some(bound) = self.before_absolute {
            valid = valid && record.last_modified.at_or_before(&bound);
        }
        if let Some(seconds) = self.after {
            valid = valid && record.last_modified.at_or_after_ago(&seen.now_after, seconds);
        }
        if let Some(seconds) = self.before {
            valid = valid && record.last_modified.at_or_before_ago(&seen.now_before, seconds);
        }
        valid != self.invert
    }

    /// Judges `record`: matches the patterns against its location and final
    /// path segment, reads the clock once for each relative bound that is
    /// set, and decides. Without relative bounds the answer depends on the
    /// record alone.
    pub fn matches(&self, record: &ObjectMeta) -> (forward: bool)
        ensures
            self@.may_decide(record@, forward),
            self@.is_timeless() ==> forall|now_after: Timestamp, now_before: Timestamp|
                forward == #[trigger] self@.accepts(record@, now_after, now_before),
    {
        let path_hit = match &self.path {
            Some(pattern) => pattern.is_match(record.location.as_str()),
            None => true,
        };
        let basename_hit = match &self.basename {
            Some(pattern) => pattern.is_match(basename(record.location.as_str())),
            None => true,
        };
        let now_after = match self.after {
            Some(_) => current_time(),
            None => Timestamp { secs: 0, nanos: 0 },
        };
        let now_before = match self.before {
            Some(_) => current_time(),
            None => Timestamp { secs: 0, nanos: 0 },
        };
        let seen = Evidence { path_hit, basename_hit, now_after, now_before };
        let forward = self.decide(record, &seen);
        proof {
            assert(seen == self@.evidence(record@, now_after, now_before));
            assert(forward == self@.accepts(record@, now_after, now_before));
        }
        forward
    }

    /// The wire form of `record` if it is to be forwarded, `None` if it is
    /// filtered out.
    pub fn select(&self, record: ObjectMeta) -> (survivor: Option<ObjectExport>)
        ensures
            survivor matches Some(export) ==> export == ObjectExport::of(record),
            self@.may_decide(record@, survivor is Some),
            self@.is_timeless() ==> forall|now_after: Timestamp, now_before: Timestamp|
                (survivor is Some) == #[trigger] self@.accepts(record@, now_after, now_before),
    {
        if self.matches(&record) {
            Some(ObjectExport::from(record))
        } else {
            None
        }
    }

    /// Filters `records`, keeping the survivors in the order they came.
    pub fn select_all(&self, records: Vec<ObjectMeta>) -> (output: Vec<ObjectExport>)
        ensures
            exists|verdicts: Seq<bool>| #[trigger]
                self@.is_selection(listed_views(records@), verdicts, export_views(output@)),
    {
        let ghost given = listed_views(records@);
        let ghost mut verdicts: Seq<bool> = Seq::empty();
        let mut output: Vec<ObjectExport> = Vec::new();
        for record in it: records
            invariant
                it.seq() == records@,
                given == listed_views(records@),
                verdicts.len() == it.index(),
                forall|i: int|
                    0 <= i < it.index() ==> self@.may_decide(given[i], #[trigger] verdicts[i]),
                export_views(output@) == forwarded(given.take(it.index()), verdicts),
        {
            let ghost index = verdicts.len() as int;
            let ghost before = export_views(output@);
            let ghost said = record@;
            let survivor = self.select(record);
            proof {
                assert(said == given[index]);
                let longer = verdicts.push(survivor is Some);
                assert(longer.drop_last() =~= verdicts);
                assert(given.take(index + 1).drop_last() =~= given.take(index));
                assert(given.take(index + 1).last() == said);
                verdicts = longer;
            }
            match survivor {
                Some(export) => {
                    output.push(export);
                    proof {
                        assert(export_views(output@) =~= before.push(said));
                    }
                },
                None => {},
            }
        }
        proof {
            assert(given.take(given.len() as int) =~= given);
            assert(self@.is_selection(given, verdicts, export_views(output@)));
        }
        output
    }
}

/// Inverting a filter flips its decision on every record.
pub proof fn lemma_invert_flips(criteria: Criteria, record: RecordView, seen: Evidence)
    ensures
        (Criteria { invert: !criteria.invert, ..criteria }).decision(record, seen)
            == !criteria.decision(record, seen),
{
}

/// The criteria are conjoined: a record that fails a size bound is excluded
/// whatever the other criteria say of it, and with `invert` it is included.
pub proof fn lemma_size_bound_is_conjoined(criteria: Criteria, record: RecordView, seen: Evidence)
    requires
        (criteria.min_size matches Some(least) && record.size < least) || (
        criteria.max_size matches Some(most) && record.size > most),
    ensures
        criteria.decision(record, seen) == criteria.invert,
{
}

/// A record is forwarded by a filter that is not inverted exactly when it
/// meets every criterion that is present, and by an inverted one exactly
/// when it fails one.
pub proof fn lemma_decision_is_conjunction(criteria: Criteria, record: RecordView, seen: Evidence)
    ensures
        !criteria.invert ==> criteria.decision(record, seen) == criteria.conjunction(record, seen),
        criteria.invert ==> criteria.decision(record, seen) == !criteria.conjunction(record, seen),
{
}

/// A filter without criteria forwards every record, whatever the clock says.
pub proof fn lemma_no_criteria_forward_all(
    record: RecordView,
    now_after: Timestamp,
    now_before: Timestamp,
)
    ensures
        Criteria::none().accepts(record, now_after, now_before),
{
}

/// A filter without criteria reproduces its input: whatever selection it
/// makes of a list of records is that list.
pub proof fn lemma_no_criteria_reproduce_input(
    records: Seq<RecordView>,
    verdicts: Seq<bool>,
    output: Seq<RecordView>,
)
    requires
        Criteria::none().is_selection(records, verdicts, output),
    ensures
        output == records,
    decreases records.len(),
{
    if records.len() > 0 {
        let last = records.len() - 1;
        assert(Criteria::none().may_decide(records[last], verdicts[last]));
        assert(verdicts.last());
        let shorter = records.drop_last();
        let fewer = verdicts.drop_last();
        assert forall|i: int| 0 <= i < shorter.len() implies Criteria::none().may_decide(
            shorter[i],
            #[trigger] fewer[i],
        ) by {
            assert(fewer[i] == verdicts[i]);
            assert(shorter[i] == records[i]);
        }
        lemma_no_criteria_reproduce_input(shorter, fewer, forwarded(shorter, fewer));
        assert(output =~= records);
    } else {
        assert(output =~= records);
    }
}

/// Chaining is idempotent: a run without criteria that is fed the
/// well-formed header and the wire records of another run reads the same
/// header and forwards
/// records that say the same, all of them and in the same order.
pub proof fn lemma_chaining_is_idempotent(
    preamble: PreambleView,
    records: Seq<ObjectExport>,
    verdicts: Seq<bool>,
    output: Seq<RecordView>,
)
    requires
        preamble.wf(),
        Criteria::none().is_selection(
            listed_views(records.map_values(|export: ObjectExport| ObjectMeta::of(export))),
            verdicts,
            output,
        ),
    ensures
        PreambleView::decode(Some(preamble.encode())) == Ok::<PreambleView, FindError>(preamble),
        output == export_views(records),
{
    let read = listed_views(records.map_values(|export: ObjectExport| ObjectMeta::of(export)));
    assert(read =~= export_views(records));
    lemma_no_criteria_reproduce_input(read, verdicts, output);
}

/// Without relative bounds the selection is fixed by the records: a record
/// is kept exactly when the filter accepts it, whatever the clock.
pub proof fn lemma_timeless_selection(
    criteria: Criteria,
    records: Seq<RecordView>,
    verdicts: Seq<bool>,
    output: Seq<RecordView>,
    now: Timestamp,
)
    requires
        criteria.is_timeless(),
        criteria.is_selection(records, verdicts, output),
    ensures
        forall|i: int|
            0 <= i < records.len() ==> #[trigger] verdicts[i] == criteria.accepts(records[i], now, now),
{
    assert forall|i: int| 0 <= i < records.len() implies #[trigger] verdicts[i] == criteria.accepts(
        records[i],
        now,
        now,
    ) by {
        assert(criteria.may_decide(records[i], verdicts[i]));
    }
}

/// Without relative bounds the decision does not depend on the clock.
pub proof fn lemma_timeless_ignores_clock(
    criteria: Criteria,
    record: RecordView,
    first: (Timestamp, Timestamp),
    second: (Timestamp, Timestamp),
)
    requires
        criteria.is_timeless(),
    ensures
        criteria.accepts(record, first.0, first.1) == criteria.accepts(record, second.0, second.1),
{
}

} // verus!
