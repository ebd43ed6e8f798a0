//! The process-wide verbosity filter, replaceable at run time.
//!
//! A filter has an active configuration, parsed from a directive such as
//! `warn,db=debug` (a global minimum level and `target=level` overrides,
//! comma-separated), and a map of administrative per-target overrides.
//!
//! Records of tide's own request-logging middleware (targets starting with
//! `tide::log::middleware`) never pass. Any other record passes when its level
//! is within the administrative override for its exact target, else within
//! the most specific directive override whose target is a prefix of the
//! record's target, else within the global level.

use vstd::prelude::*;
use dashmap::DashMap;
use crate::level::{filter_name, filter_named, format_log_level, parse_log_level, permits, FilterParseError, Level, LevelFilter};
use crate::text::{find_char, first_at, has_prefix, lemma_first_at_unique, lower_seq, push_char, starts_with};

verus! {

/// The concurrent map of administrative per-target overrides.
pub type LevelMap = DashMap<String, LevelFilter>;

/// Model of the override map: target name to level filter.
pub type LevelView = Map<Seq<char>, LevelFilter>;

/// What the override map holds: target name to level filter.
pub uninterp spec fn level_entries(m: LevelMap) -> LevelView;

/// Relies on `DashMap::new`: a new map holds no entry.
#[verifier::external_body]
fn level_map_new() -> (r: LevelMap)
    ensures
        level_entries(r) == LevelView::empty(),
{
    DashMap::new()
}

/// Relies on `DashMap::insert`: the key is mapped to the value, replacing any
/// earlier value; other keys are untouched.
#[verifier::external_body]
fn level_map_insert(m: &mut LevelMap, key: String, value: LevelFilter)
    ensures
        level_entries(*final(m)) == level_entries(*old(m)).insert(key@, value),
{
    m.insert(key, value);
}

/// Relies on `DashMap::get`: the value stored under the key, if any.
#[verifier::external_body]
fn level_map_get(m: &LevelMap, key: &str) -> (r: Option<LevelFilter>)
    ensures
        match r {
            Some(v) => level_entries(*m).contains_key(key@) && level_entries(*m)[key@] == v,
            None => !level_entries(*m).contains_key(key@),
        },
{
    m.get(key).map(|e| *e.value())
}

/// Relies on `DashMap::remove`: the key no longer has an entry, other keys are
/// untouched, and the result tells whether there was one.
#[verifier::external_body]
fn level_map_remove(m: &mut LevelMap, key: &str) -> (r: bool)
    ensures
        r == level_entries(*old(m)).contains_key(key@),
        level_entries(*final(m)) == level_entries(*old(m)).remove(key@),
{
    m.remove(key).is_some()
}

/// Relies on `DashMap::iter`: every entry once, in an order that the map does
/// not promise.
#[verifier::external_body]
fn level_map_entries(m: &LevelMap) -> (r: Vec<(String, LevelFilter)>)
    ensures
        forall|i: int| 0 <= i < r@.len() ==> level_entries(*m).contains_key(#[trigger] r@[i].0@) && level_entries(*m)[r@[i].0@] == r@[i].1,
        forall|k: Seq<char>| level_entries(*m).contains_key(k) ==> exists|i: int| 0 <= i < r@.len() && #[trigger] r@[i].0@ == k,
        forall|i: int, j: int| 0 <= i < r@.len() && 0 <= j < r@.len() && i != j ==> r@[i].0@ != r@[j].0@,
{
    m.iter().map(|e| (e.key().clone(), *e.value())).collect()
}

/// Model of a parsed directive: the global level and the target overrides in
/// the order they were written.
pub struct FilterView {
    pub global: LevelFilter,
    pub targets: Seq<(Seq<char>, LevelFilter)>,
}

/// The directive override that applies to `target`: among those whose target
/// is a prefix of `target`, the one with the longest target; of equally long
/// ones, the one written last.
pub open spec fn best_directive(ts: Seq<(Seq<char>, LevelFilter)>, target: Seq<char>) -> Option<(Seq<char>, LevelFilter)>
    decreases ts.len(),
{
    if ts.len() == 0 {
        None
    } else {
        let rest = best_directive(ts.drop_last(), target);
        let e = ts.last();
        if has_prefix(target, e.0) && match rest {
            Some(b) => b.0.len() <= e.0.len(),
            None => true,
        } {
            Some(e)
        } else {
            rest
        }
    }
}

/// The level that the directive's overrides give `target`, if any applies.
pub open spec fn target_level(ts: Seq<(Seq<char>, LevelFilter)>, target: Seq<char>) -> Option<LevelFilter> {
    match best_directive(ts, target) {
        Some(e) => Some(e.1),
        None => None,
    }
}

/// The pieces of a directive between its commas.
pub open spec fn split_commas(s: Seq<char>) -> Seq<Seq<char>>
    decreases s.len(),
{
    if exists|i: int| first_at(s, ',', i) {
        let i = choose|i: int| first_at(s, ',', i);
        seq![s.subrange(0, i)] + split_commas(s.subrange(i + 1, s.len() as int))
    } else {
        seq![s]
    }
}

/// One piece of a directive: a bare level name sets the global level
/// (`None` target); `target=level` with a non-empty target sets an override.
/// Level names are read ignoring ASCII case.
pub open spec fn piece_of(p: Seq<char>) -> Option<(Option<Seq<char>>, LevelFilter)> {
    if exists|i: int| first_at(p, '=', i) {
        let i = choose|i: int| first_at(p, '=', i);
        match filter_named(lower_seq(p.subrange(i + 1, p.len() as int))) {
            Some(f) => if i > 0 {
                Some((Some(p.subrange(0, i)), f))
            } else {
                None
            },
            None => None,
        }
    } else {
        match filter_named(lower_seq(p)) {
            Some(f) => Some((None, f)),
            None => None,
        }
    }
}

/// Applies the pieces in order to `acc`; `None` if any piece is malformed.
pub open spec fn apply_pieces(ps: Seq<Seq<char>>, acc: FilterView) -> Option<FilterView>
    decreases ps.len(),
{
    if ps.len() == 0 {
        Some(acc)
    } else {
        match piece_of(ps[0]) {
            None => None,
            Some((None, f)) => apply_pieces(ps.drop_first(), FilterView { global: f, targets: acc.targets }),
            Some((Some(t), f)) => apply_pieces(
                ps.drop_first(),
                FilterView { global: acc.global, targets: acc.targets.push((t, f)) },
            ),
        }
    }
}

/// The filter that a directive describes, or `None` when it is malformed.
/// Without a bare level the global level is `error`.
pub open spec fn directive_filter(d: Seq<char>) -> Option<FilterView> {
    apply_pieces(split_commas(d), FilterView { global: LevelFilter::Error, targets: seq![] })
}

/// The text of the directive overrides, each as `,target=level`.
pub open spec fn targets_text(ts: Seq<(Seq<char>, LevelFilter)>) -> Seq<char>
    decreases ts.len(),
{
    if ts.len() == 0 {
        seq![]
    } else {
        targets_text(ts.drop_last()) + seq![','] + ts.last().0 + seq!['='] + filter_name(ts.last().1)
    }
}

/// The directive text of a filter: the global level, then its overrides.
pub open spec fn filter_text(f: FilterView) -> Seq<char> {
    filter_name(f.global) + targets_text(f.targets)
}

/// A parsed directive.
pub struct FilterSpec {
    pub global: LevelFilter,
    pub targets: Vec<(String, LevelFilter)>,
}

pub open spec fn targets_view(ts: Seq<(String, LevelFilter)>) -> Seq<(Seq<char>, LevelFilter)> {
    ts.map_values(|e: (String, LevelFilter)| (e.0@, e.1))
}

impl View for FilterSpec {
    type V = FilterView;

    open spec fn view(&self) -> FilterView {
        FilterView { global: self.global, targets: targets_view(self.targets@) }
    }
}

/// Reads one piece of a directive.
fn parse_piece(p: &str) -> (r: Option<(Option<String>, LevelFilter)>)
    ensures
        match r {
            Some((Some(t), f)) => piece_of(p@) == Some((Some(t@), f)),
            Some((None, f)) => piece_of(p@) == Some((None::<Seq<char>>, f)),
            None => piece_of(p@) is None,
        },
{
    match find_char(p, '=') {
        Some(i) => {
            proof {
                let k = choose|k: int| first_at(p@, '=', k);
                lemma_first_at_unique(p@, '=', i as int, k);
            }
            let n = p.unicode_len();
            let level = p.substring_char(i + 1, n);
            match parse_log_level(level) {
                Ok(f) => {
                    if i > 0 {
                        Some((Some(String::from_str(p.substring_char(0, i))), f))
                    } else {
                        None
                    }
                },
                Err(_) => None,
            }
        },
        None => {
            proof {
                assert(!exists|k: int| first_at(p@, '=', k)) by {
                    assert forall|k: int| !first_at(p@, '=', k) by {
                        if 0 <= k < p@.len() {
                            assert(p@[k] != '=');
                        }
                    }
                }
            }
            match parse_log_level(p) {
                Ok(f) => Some((None, f)),
                Err(_) => None,
            }
        },
    }
}

/// Parses a directive: comma-separated pieces, each a level name (the global
/// level) or `target=level`. Fails on the first malformed piece.
pub fn parse_directive(directive: &str) -> (r: Result<FilterSpec, FilterParseError>)
    ensures
        match r {
            Ok(f) => directive_filter(directive@) == Some(f@),
            Err(_) => directive_filter(directive@) is None,
        },
{
    let n = directive.unicode_len();
    let mut start: usize = 0;
    let mut global = LevelFilter::Error;
    let mut targets: Vec<(String, LevelFilter)> = Vec::new();
    proof {
        assert(directive@.subrange(0, n as int) =~= directive@);
        assert(targets_view(targets@) =~= Seq::<(Seq<char>, LevelFilter)>::empty());
    }
    loop
        invariant
            n == directive@.len(),
            start <= n,
            directive_filter(directive@) == apply_pieces(
                split_commas(directive@.subrange(start as int, n as int)),
                FilterView { global: global, targets: targets_view(targets@) },
            ),
        decreases n - start,
    {
        let rest = directive.substring_char(start, n);
        let ghost acc = FilterView { global: global, targets: targets_view(targets@) };
        let found = find_char(rest, ',');
        let piece = match found {
            Some(i) => rest.substring_char(0, i),
            None => rest,
        };
        let ghost tail: Seq<Seq<char>> = match found {
            Some(i) => split_commas(rest@.subrange(i + 1, rest@.len() as int)),
            None => Seq::empty(),
        };
        proof {
            match found {
                Some(i) => {
                    let k = choose|k: int| first_at(rest@, ',', k);
                    lemma_first_at_unique(rest@, ',', i as int, k);
                    assert(split_commas(rest@) == seq![piece@] + tail);
                },
                None => {
                    assert(!exists|k: int| first_at(rest@, ',', k)) by {
                        assert forall|k: int| !first_at(rest@, ',', k) by {
                            if 0 <= k < rest@.len() {
                                assert(rest@[k] != ',');
                            }
                        }
                    }
                    assert(split_commas(rest@) == seq![piece@]);
                },
            }
            assert((seq![piece@] + tail)[0] == piece@);
            assert((seq![piece@] + tail).drop_first() =~= tail);
        }
        match parse_piece(piece) {
            None => {
                return Err(FilterParseError { bad: String::from_str(piece) });
            },
            Some((None, f)) => {
                global = f;
            },
            Some((Some(t), f)) => {
                let ghost old_targets = targets@;
                targets.push((t, f));
                proof {
                    assert(targets_view(targets@) =~= targets_view(old_targets).push((t@, f)));
                }
            },
        }
        match found {
            Some(i) => {
                proof {
                    assert(rest@.subrange(i + 1, rest@.len() as int) =~= directive@.subrange(
                        start + i + 1,
                        n as int,
                    ));
                }
                start = start + i + 1;
            },
            None => {
                return Ok(FilterSpec { global, targets });
            },
        }
    }
}

/// The level that the overrides of `targets` give `target`, if any applies.
fn find_target_level(targets: &Vec<(String, LevelFilter)>, target: &str) -> (r: Option<LevelFilter>)
    ensures
        r == target_level(targets_view(targets@), target@),
{
    let ghost tv = targets_view(targets@);
    let mut best: Option<usize> = None;
    let mut best_len: usize = 0;
    let mut i: usize = 0;
    proof {
        assert(tv.subrange(0, 0) =~= Seq::<(Seq<char>, LevelFilter)>::empty());
    }
    while i < targets.len()
        invariant
            tv == targets_view(targets@),
            i <= targets@.len(),
            match best {
                Some(j) => j < i && best_directive(tv.subrange(0, i as int), target@) == Some(tv[j as int])
                    && best_len == tv[j as int].0.len(),
                None => best_directive(tv.subrange(0, i as int), target@) is None,
            },
        decreases targets@.len() - i,
    {
        proof {
            assert(tv.subrange(0, i + 1).drop_last() =~= tv.subrange(0, i as int));
            assert(tv.subrange(0, i + 1).last() == tv[i as int]);
        }
        let name = targets[i].0.as_str();
        if starts_with(target, name) {
            let n = name.unicode_len();
            let better = match best {
                Some(_) => best_len <= n,
                None => true,
            };
            if better {
                best = Some(i);
                best_len = n;
            }
        }
        i = i + 1;
    }
    proof {
        assert(tv.subrange(0, targets@.len() as int) =~= tv);
    }
    match best {
        Some(j) => Some(targets[j].1),
        None => None,
    }
}

/// The directive text of a parsed filter.
fn render_filter(f: &FilterSpec) -> (r: String)
    ensures
        r@ == filter_text(f@),
{
    let mut r = format_log_level(f.global);
    let mut i: usize = 0;
    while i < f.targets.len()
        invariant
            i <= f.targets@.len(),
            r@ == filter_name(f.global) + targets_text(targets_view(f.targets@).subrange(0, i as int)),
        decreases f.targets@.len() - i,
    {
        let ghost before = r@;
        push_char(&mut r, ',');
        r.append(f.targets[i].0.as_str());
        push_char(&mut r, '=');
        let name = format_log_level(f.targets[i].1);
        r.append(name.as_str());
        proof {
            let ts = targets_view(f.targets@).subrange(0, i + 1);
            assert(ts.drop_last() =~= targets_view(f.targets@).subrange(0, i as int));
            assert(r@ =~= before + seq![','] + ts.last().0 + seq!['='] + filter_name(ts.last().1));
        }
        i = i + 1;
    }
    proof {
        assert(targets_view(f.targets@).subrange(0, f.targets@.len() as int) =~= targets_view(f.targets@));
    }
    r
}

/// Model of the whole filter: the active directive and the administrative
/// overrides.
pub struct LogFilterView {
    pub active: FilterView,
    pub overrides: LevelView,
}

/// Targets of tide's request-logging middleware, which are never emitted.
pub open spec fn muted_prefix() -> Seq<char> {
    "tide::log::middleware"@
}

/// A record of `level` for `target` passes the filter `v`.
pub open spec fn admits(v: LogFilterView, target: Seq<char>, level: Level) -> bool {
    if has_prefix(target, muted_prefix()) {
        false
    } else if v.overrides.contains_key(target) {
        permits(v.overrides[target], level)
    } else {
        match target_level(v.active.targets, target) {
            Some(f) => permits(f, level),
            None => permits(v.active.global, level),
        }
    }
}

/// The filter after a reload with `directive`: the parsed directive replaces
/// the active one; a malformed directive changes nothing.
pub open spec fn reloaded(v: LogFilterView, directive: Seq<char>) -> LogFilterView {
    match directive_filter(directive) {
        Some(f) => LogFilterView { active: f, overrides: v.overrides },
        None => v,
    }
}

pub open spec fn level_as_filter(l: Level) -> LevelFilter {
    match l {
        Level::Error => LevelFilter::Error,
        Level::Warn => LevelFilter::Warn,
        Level::Info => LevelFilter::Info,
        Level::Debug => LevelFilter::Debug,
        Level::Trace => LevelFilter::Trace,
    }
}

/// The live filter. Built once at start-up by [`setup_logger`] and shared by
/// everything that logs.
pub struct LogFilter {
    active: FilterSpec,
    overrides: LevelMap,
}

impl View for LogFilter {
    type V = LogFilterView;

    closed spec fn view(&self) -> LogFilterView {
        LogFilterView { active: self.active@, overrides: level_entries(self.overrides) }
    }
}

/// Builds the filter: `level` is the global minimum, with no overrides.
pub fn setup_logger(level: Level) -> (r: LogFilter)
    ensures
        r@.active.global == level_as_filter(level),
        r@.active.targets == Seq::<(Seq<char>, LevelFilter)>::empty(),
        r@.overrides == LevelView::empty(),
{
    let global = match level {
        Level::Error => LevelFilter::Error,
        Level::Warn => LevelFilter::Warn,
        Level::Info => LevelFilter::Info,
        Level::Debug => LevelFilter::Debug,
        Level::Trace => LevelFilter::Trace,
    };
    let targets: Vec<(String, LevelFilter)> = Vec::new();
    let r = LogFilter { active: FilterSpec { global, targets }, overrides: level_map_new() };
    proof {
        assert(r@.active.targets =~= Seq::<(Seq<char>, LevelFilter)>::empty());
    }
    r
}

/// Replaces the active directive with `directive`. A malformed directive is
/// refused and the filter stays as it was.
pub fn update_global_log_level(filter: &mut LogFilter, directive: &str) -> (r: Result<(), FilterParseError>)
    ensures
        r is Ok <==> directive_filter(directive@) is Some,
        final(filter)@ == reloaded(old(filter)@, directive@),
{
    match parse_directive(directive) {
        Ok(spec) => {
            filter.active = spec;
            Ok(())
        },
        Err(e) => Err(e),
    }
}

/// The active directive as text: the global level, then each override as
/// `,target=level`.
pub fn get_global_log_level(filter: &LogFilter) -> (r: String)
    ensures
        r@ == filter_text(filter@.active),
{
    render_filter(&filter.active)
}

/// Sets the administrative override for `target`.
pub fn set_target_log_level(filter: &mut LogFilter, target: String, level: LevelFilter)
    ensures
        final(filter)@.active == old(filter)@.active,
        final(filter)@.overrides == old(filter)@.overrides.insert(target@, level),
{
    level_map_insert(&mut filter.overrides, target, level);
}

/// The administrative override for `target`, if one is set.
pub fn get_target_log_level(filter: &LogFilter, target: &str) -> (r: Option<LevelFilter>)
    ensures
        r == (if filter@.overrides.contains_key(target@) {
            Some(filter@.overrides[target@])
        } else {
            None
        }),
{
    level_map_get(&filter.overrides, target)
}

/// Removes the administrative override for `target`; tells whether there was
/// one.
pub fn remove_target_log_level(filter: &mut LogFilter, target: &str) -> (r: bool)
    ensures
        r == old(filter)@.overrides.contains_key(target@),
        final(filter)@.active == old(filter)@.active,
        final(filter)@.overrides == old(filter)@.overrides.remove(target@),
{
    level_map_remove(&mut filter.overrides, target)
}

/// Every administrative override once, in no particular order.
pub fn list_target_log_levels(filter: &LogFilter) -> (r: Vec<(String, LevelFilter)>)
    ensures
        forall|i: int| 0 <= i < r@.len() ==> filter@.overrides.contains_key(#[trigger] r@[i].0@) && filter@.overrides[r@[i].0@] == r@[i].1,
        forall|k: Seq<char>| filter@.overrides.contains_key(k) ==> exists|i: int| 0 <= i < r@.len() && #[trigger] r@[i].0@ == k,
        forall|i: int, j: int| 0 <= i < r@.len() && 0 <= j < r@.len() && i != j ==> r@[i].0@ != r@[j].0@,
{
    level_map_entries(&filter.overrides)
}

/// Whether a record of `level` for `target` is to be emitted.
pub fn enabled(filter: &LogFilter, target: &str, level: Level) -> (r: bool)
    ensures
        r == admits(filter@, target@, level),
{
    if starts_with(target, "tide::log::middleware") {
        return false;
    }
    match level_map_get(&filter.overrides, target) {
        Some(f) => level.admitted_by(f),
        None => match find_target_level(&filter.active.targets, target) {
            Some(f) => level.admitted_by(f),
            None => level.admitted_by(filter.active.global),
        },
    }
}

/// A reload with a malformed directive leaves the filter, and so the text
/// that [`get_global_log_level`] reports, as it was.
pub proof fn lemma_malformed_reload_keeps_filter(v: LogFilterView, directive: Seq<char>)
    requires
        directive_filter(directive) is None,
    ensures
        reloaded(v, directive) == v,
        filter_text(reloaded(v, directive).active) == filter_text(v.active),
{
}

/// After a reload with a valid directive, the very next emission check for a
/// target without an administrative override (and outside tide's middleware
/// targets) is decided by that directive alone: by its override for the
/// target if one applies, else by its global level, never by the filter it
/// replaced.
pub proof fn lemma_reload_takes_effect(v: LogFilterView, directive: Seq<char>, target: Seq<char>, level: Level)
    requires
        directive_filter(directive) is Some,
        !v.overrides.contains_key(target),
        !has_prefix(target, muted_prefix()),
    ensures
        ({
            let d = directive_filter(directive).unwrap();
            &&& reloaded(v, directive).active == d
            &&& admits(reloaded(v, directive), target, level) == match target_level(d.targets, target) {
                Some(f) => permits(f, level),
                None => permits(d.global, level),
            }
        }),
{
}

/// `s` holds neither `c1` nor `c2`.
pub open spec fn free_of(s: Seq<char>, c1: char, c2: char) -> bool {
    forall|j: int| 0 <= j < s.len() ==> s[j] != c1 && s[j] != c2
}

/// Directive overrides whose targets are non-empty and hold no `,` or `=`.
pub open spec fn plain_targets(ts: Seq<(Seq<char>, LevelFilter)>) -> bool {
    forall|i: int| 0 <= i < ts.len() ==> (#[trigger] ts[i]).0.len() > 0 && free_of(ts[i].0, ',', '=')
}

proof fn lemma_split_single(s: Seq<char>)
    requires
        free_of(s, ',', ','),
    ensures
        split_commas(s) == seq![s],
{
    assert(!exists|i: int| first_at(s, ',', i)) by {
        assert forall|i: int| !first_at(s, ',', i) by {
            if 0 <= i < s.len() {
                assert(s[i] != ',');
            }
        }
    }
}

proof fn lemma_split_append(s: Seq<char>, p: Seq<char>)
    requires
        free_of(p, ',', ','),
    ensures
        split_commas(s + seq![','] + p) == split_commas(s) + seq![p],
    decreases s.len(),
{
    let t = s + seq![','] + p;
    if exists|i: int| first_at(s, ',', i) {
        let i = choose|i: int| first_at(s, ',', i);
        assert(first_at(t, ',', i));
        let k = choose|k: int| first_at(t, ',', k);
        lemma_first_at_unique(t, ',', i, k);
        let rest = s.subrange(i + 1, s.len() as int);
        assert(t.subrange(i + 1, t.len() as int) =~= rest + seq![','] + p);
        assert(t.subrange(0, i) =~= s.subrange(0, i));
        lemma_split_append(rest, p);
        assert(split_commas(t) =~= split_commas(s) + seq![p]);
    } else {
        assert forall|j: int| 0 <= j < s.len() implies s[j] != ',' by {
            if s[j] == ',' {
                lemma_first_comma_exists(s, j);
                let m = choose|m: int| 0 <= m <= j && s[m] == ',' && forall|q: int| 0 <= q < m ==> s[q] != ',';
                assert(first_at(s, ',', m));
            }
        }
        assert(first_at(t, ',', s.len() as int));
        let k = choose|k: int| first_at(t, ',', k);
        lemma_first_at_unique(t, ',', s.len() as int, k);
        assert(t.subrange(0, s.len() as int) =~= s);
        assert(t.subrange(s.len() as int + 1, t.len() as int) =~= p);
        lemma_split_single(p);
        lemma_split_single(s);
        assert(split_commas(t) =~= split_commas(s) + seq![p]);
    }
}

proof fn lemma_first_comma_exists(s: Seq<char>, j: int)
    requires
        0 <= j < s.len(),
        s[j] == ',',
    ensures
        exists|m: int| 0 <= m <= j && s[m] == ',' && forall|q: int| 0 <= q < m ==> s[q] != ',',
    decreases j,
{
    if exists|q: int| 0 <= q < j && s[q] == ',' {
        let q = choose|q: int| 0 <= q < j && s[q] == ',';
        lemma_first_comma_exists(s, q);
    } else {
        assert(forall|q: int| 0 <= q < j ==> s[q] != ',');
    }
}

/// The filter after one more piece, or `None` if the piece is malformed.
pub open spec fn apply_one(p: Seq<char>, acc: FilterView) -> Option<FilterView> {
    apply_pieces(seq![p], acc)
}

proof fn lemma_apply_append(ps: Seq<Seq<char>>, p: Seq<char>, acc: FilterView)
    ensures
        apply_pieces(ps + seq![p], acc) == match apply_pieces(ps, acc) {
            Some(f) => apply_one(p, f),
            None => None,
        },
    decreases ps.len(),
{
    if ps.len() == 0 {
        assert(ps + seq![p] =~= seq![p]);
    } else {
        assert((ps + seq![p])[0] == ps[0]);
        assert((ps + seq![p]).drop_first() =~= ps.drop_first() + seq![p]);
        match piece_of(ps[0]) {
            None => {},
            Some((None, f)) => {
                lemma_apply_append(ps.drop_first(), p, FilterView { global: f, targets: acc.targets });
            },
            Some((Some(t), f)) => {
                lemma_apply_append(
                    ps.drop_first(),
                    p,
                    FilterView { global: acc.global, targets: acc.targets.push((t, f)) },
                );
            },
        }
    }
}

proof fn lemma_name_reads_back(f: LevelFilter)
    ensures
        lower_seq(filter_name(f)) == filter_name(f),
        filter_named(filter_name(f)) == Some(f),
        free_of(filter_name(f), ',', '='),
{
    assert(lower_seq(filter_name(f)) =~= filter_name(f));
    assert(filter_name(LevelFilter::Off) != filter_name(LevelFilter::Error));
    assert(filter_name(LevelFilter::Off) != filter_name(LevelFilter::Warn));
    assert(filter_name(LevelFilter::Off) != filter_name(LevelFilter::Info));
    assert(filter_name(LevelFilter::Off) != filter_name(LevelFilter::Debug));
    assert(filter_name(LevelFilter::Off) != filter_name(LevelFilter::Trace));
    assert(filter_name(LevelFilter::Error)[0] != filter_name(LevelFilter::Warn)[0]);
    assert(filter_name(LevelFilter::Error)[0] != filter_name(LevelFilter::Info)[0]);
    assert(filter_name(LevelFilter::Error)[0] != filter_name(LevelFilter::Debug)[0]);
    assert(filter_name(LevelFilter::Error)[0] != filter_name(LevelFilter::Trace)[0]);
    assert(filter_name(LevelFilter::Warn)[0] != filter_name(LevelFilter::Info)[0]);
    assert(filter_name(LevelFilter::Warn)[0] != filter_name(LevelFilter::Debug)[0]);
    assert(filter_name(LevelFilter::Warn)[0] != filter_name(LevelFilter::Trace)[0]);
    assert(filter_name(LevelFilter::Info)[0] != filter_name(LevelFilter::Debug)[0]);
    assert(filter_name(LevelFilter::Info)[0] != filter_name(LevelFilter::Trace)[0]);
    assert(filter_name(LevelFilter::Debug)[0] != filter_name(LevelFilter::Trace)[0]);
}

proof fn lemma_piece_reads_back(t: Seq<char>, f: LevelFilter)
    requires
        t.len() > 0,
        free_of(t, ',', '='),
    ensures
        piece_of(t + seq!['='] + filter_name(f)) == Some((Some(t), f)),
        free_of(t + seq!['='] + filter_name(f), ',', ','),
{
    let p = t + seq!['='] + filter_name(f);
    lemma_name_reads_back(f);
    assert(first_at(p, '=', t.len() as int));
    let k = choose|k: int| first_at(p, '=', k);
    lemma_first_at_unique(p, '=', t.len() as int, k);
    assert(p.subrange(0, t.len() as int) =~= t);
    assert(p.subrange(t.len() as int + 1, p.len() as int) =~= filter_name(f));
}

proof fn lemma_apply_global_only(g: LevelFilter, acc: FilterView)
    ensures
        apply_pieces(seq![filter_name(g)], acc) == Some(FilterView { global: g, targets: acc.targets }),
{
    lemma_name_reads_back(g);
    assert forall|i: int| !first_at(filter_name(g), '=', i) by {
        if 0 <= i < filter_name(g).len() {
            assert(filter_name(g)[i] != '=');
        }
    }
    assert(piece_of(filter_name(g)) == Some((None::<Seq<char>>, g)));
    let ps = seq![filter_name(g)];
    assert(ps[0] == filter_name(g));
    assert(ps.drop_first() =~= Seq::<Seq<char>>::empty());
    let next = FilterView { global: g, targets: acc.targets };
    assert(apply_pieces(ps.drop_first(), next) == Some(next));
    assert(apply_pieces(ps, acc) == apply_pieces(ps.drop_first(), next));
}

proof fn lemma_apply_one_target(t: Seq<char>, l: LevelFilter, acc: FilterView)
    requires
        t.len() > 0,
        free_of(t, ',', '='),
    ensures
        apply_one(t + seq!['='] + filter_name(l), acc) == Some(
            FilterView { global: acc.global, targets: acc.targets.push((t, l)) },
        ),
{
    let piece = t + seq!['='] + filter_name(l);
    lemma_piece_reads_back(t, l);
    let ps = seq![piece];
    assert(ps[0] == piece);
    assert(ps.drop_first() =~= Seq::<Seq<char>>::empty());
    let next = FilterView { global: acc.global, targets: acc.targets.push((t, l)) };
    assert(apply_pieces(ps.drop_first(), next) == Some(next));
    assert(apply_pieces(ps, acc) == apply_pieces(ps.drop_first(), next));
}

#[verifier::rlimit(60)]
proof fn lemma_text_reparses(f: FilterView)
    requires
        plain_targets(f.targets),
    ensures
        apply_pieces(split_commas(filter_text(f)), FilterView { global: LevelFilter::Error, targets: seq![] })
            == Some(f),
    decreases f.targets.len(),
{
    let init = FilterView { global: LevelFilter::Error, targets: seq![] };
    if f.targets.len() == 0 {
        lemma_name_reads_back(f.global);
        assert(filter_text(f) =~= filter_name(f.global));
        lemma_split_single(filter_name(f.global));
        lemma_apply_global_only(f.global, init);
        assert(f.targets =~= Seq::<(Seq<char>, LevelFilter)>::empty());
        assert(f == FilterView { global: f.global, targets: init.targets });
    } else {
        let prev = FilterView { global: f.global, targets: f.targets.drop_last() };
        let t = f.targets.last().0;
        let l = f.targets.last().1;
        assert(plain_targets(prev.targets)) by {
            assert forall|i: int| 0 <= i < prev.targets.len() implies (#[trigger] prev.targets[i]).0.len() > 0
                && free_of(prev.targets[i].0, ',', '=') by {
                assert(prev.targets[i] == f.targets[i]);
            }
        }
        assert(f.targets[f.targets.len() - 1] == f.targets.last());
        lemma_text_reparses(prev);
        let piece = t + seq!['='] + filter_name(l);
        lemma_piece_reads_back(t, l);
        assert(filter_text(f) =~= filter_text(prev) + seq![','] + piece);
        lemma_split_append(filter_text(prev), piece);
        lemma_apply_append(split_commas(filter_text(prev)), piece, init);
        lemma_apply_one_target(t, l, prev);
        assert(prev.targets.push((t, l)) =~= f.targets);
        assert(f == FilterView { global: prev.global, targets: prev.targets.push((t, l)) });
    }
}

/// The text that [`get_global_log_level`] reports reads back, through
/// [`update_global_log_level`], as the very filter it came from, when its
/// override targets are non-empty and hold no `,` or `=`.
pub proof fn lemma_current_text_reparses(f: FilterView)
    requires
        plain_targets(f.targets),
    ensures
        directive_filter(filter_text(f)) == Some(f),
{
    lemma_text_reparses(f);
}

} // verus!
