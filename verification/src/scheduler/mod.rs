//! When sources are fetched: the registry of configured sources and the
//! decision whether a source is due.
use vstd::prelude::*;
use crate::text::str_equal;
use crate::json::JsonValue;
use crate::connector::{Timestamp, AnyConnector, ConnectorError, FetchContext, connector_for, create_connector};
use vstd::arithmetic::div_mod::{lemma_fundamental_div_mod, lemma_fundamental_div_mod_converse};

verus! {

broadcast use vstd::string::group_string_axioms;

/// A configured source: its type, parameters, fetch interval, and the time
/// of its last fetch.
#[derive(Debug, PartialEq, Eq)]
pub struct ConnectorState {
    pub source_type: String,
    pub params: JsonValue,
    pub fetch_interval_secs: u64,
    pub last_fetched_at: Option<Timestamp>,
}

/// The configured sources, at most one per source type.
#[derive(Debug, PartialEq, Eq)]
pub struct ConnectorRegistry {
    entries: Vec<ConnectorState>,
}

/// Whether each source type occurs at most once in `s`.
pub open spec fn distinct_types(s: Seq<ConnectorState>) -> bool {
    forall|i: int, j: int|
        0 <= i < j < s.len() ==> (#[trigger] s[i]).source_type@ != (#[trigger] s[j]).source_type@
}

impl View for ConnectorRegistry {
    type V = Seq<ConnectorState>;

    /// The sources, in registry order.
    closed spec fn view(&self) -> Seq<ConnectorState> {
        self.entries@
    }
}

impl ConnectorRegistry {
    #[verifier::type_invariant]
    spec fn inv(self) -> bool {
        distinct_types(self.entries@)
    }

    /// The source types, in registry order.
    pub open spec fn keys(&self) -> Seq<Seq<char>> {
        Seq::new(self@.len(), |i: int| self@[i].source_type@)
    }

    /// Whether the registry holds a source of type `key`.
    pub open spec fn has(&self, key: Seq<char>) -> bool {
        exists|i: int| 0 <= i < self@.len() && (#[trigger] self@[i]).source_type@ == key
    }

    pub fn new() -> (r: Self)
        ensures
            r@.len() == 0,
    {
        ConnectorRegistry { entries: Vec::new() }
    }

    /// The sources, in registry order; each source type occurs once.
    pub fn entries(&self) -> (r: &Vec<ConnectorState>)
        ensures
            r@ == self@,
            distinct_types(self@),
    {
        proof {
            use_type_invariant(self);
        }
        &self.entries
    }

    /// The position of the source of type `key`, if there is one.
    pub fn position(&self, key: &str) -> (r: Option<usize>)
        ensures
            match r {
                Some(i) => i < self@.len() && self@[i as int].source_type@ == key@,
                None => !self.has(key@),
            },
    {
        let mut i: usize = 0;
        while i < self.entries.len()
            invariant
                i <= self.entries@.len(),
                forall|j: int| 0 <= j < i ==> (#[trigger] self.entries@[j]).source_type@ != key@,
            decreases self.entries@.len() - i,
        {
            if str_equal(self.entries[i].source_type.as_str(), key) {
                return Some(i);
            }
            i += 1;
        }
        None
    }

    /// Adds a source, replacing the one of the same type if there is one:
    /// the others keep their place and state, and a new type goes last.
    pub fn insert(&mut self, state: ConnectorState)
        ensures
            distinct_types(final(self)@),
            final(self).has(state.source_type@),
            forall|i: int|
                0 <= i < final(self)@.len() && (#[trigger] final(self)@[i]).source_type@
                    == state.source_type@ ==> final(self)@[i] == state,
            old(self).has(state.source_type@) ==> final(self)@.len() == old(self)@.len(),
            !old(self).has(state.source_type@) ==> final(self)@ == old(self)@.push(state),
            forall|i: int|
                0 <= i < old(self)@.len() && (#[trigger] old(self)@[i]).source_type@
                    != state.source_type@ ==> final(self)@[i] == old(self)@[i],
    {
        proof {
            use_type_invariant(&*self);
        }
        let pos = self.position(state.source_type.as_str());
        let mut v: Vec<ConnectorState> = Vec::new();
        std::mem::swap(&mut v, &mut self.entries);
        let ghost key = state.source_type@;
        match pos {
            Some(i) => {
                v.set(i, state);
                assert(v@[i as int].source_type@ == key);
            },
            None => {
                v.push(state);
                assert(v@[v@.len() - 1].source_type@ == key);
            },
        }
        self.entries = v;
    }
}

/// What a fetch cycle does at one position of the registry.
pub enum CycleAction {
    /// The source is not due: pass on to the next.
    Skip,
    /// Fetch with this connector and context, then index what comes back.
    Fetch { connector: AnyConnector, ctx: FetchContext },
    /// The source's connector could not be made.
    CreateFailed { error: ConnectorError },
    /// Every source was visited: commit pending changes.
    Commit,
}

impl ConnectorRegistry {
    /// The step of a fetch cycle at position `i`, with the clock at `now`:
    /// past the last source, commit; a source that is not due is skipped;
    /// a due source is fetched with its connector, from its last fetch time,
    /// or fails where its connector cannot be made.
    pub fn cycle_step(&self, i: usize, now: Timestamp) -> (r: CycleAction)
        ensures
            i >= self@.len() <==> r is Commit,
            i < self@.len() ==> {
                let st = self@[i as int];
                let is_due = due(st.last_fetched_at, now, st.fetch_interval_secs);
                &&& (r is Skip <==> !is_due)
                &&& (r matches CycleAction::Fetch { connector, ctx } ==> is_due && ctx.last_fetched_at
                    == st.last_fetched_at && connector_for(st.source_type@, st.params, Ok(connector)))
                &&& (r matches CycleAction::CreateFailed { error } ==> is_due && connector_for(
                    st.source_type@,
                    st.params,
                    Err(error),
                ))
            },
    {
        let entries = self.entries();
        if i >= entries.len() {
            return CycleAction::Commit;
        }
        let st = &entries[i];
        if !should_fetch(st.last_fetched_at, now, st.fetch_interval_secs) {
            return CycleAction::Skip;
        }
        match create_connector(st.source_type.as_str(), &st.params) {
            Ok(connector) => CycleAction::Fetch {
                connector,
                ctx: FetchContext { last_fetched_at: st.last_fetched_at },
            },
            Err(error) => CycleAction::CreateFailed { error },
        }
    }
}

/// The whole seconds of `d` nanoseconds, rounded toward zero.
pub open spec fn whole_seconds(d: int) -> int {
    if d >= 0 {
        d / 1_000_000_000
    } else {
        -((-d) / 1_000_000_000)
    }
}

/// The seconds from `last` to `now`, rounded toward zero.
pub open spec fn elapsed_seconds(last: Timestamp, now: Timestamp) -> int {
    whole_seconds((now.secs - last.secs) * 1_000_000_000 + (now.nanos - last.nanos))
}

/// Whether a source is due for a fetch: when it was never fetched, or when
/// the seconds since its last fetch, read as an unsigned number, reach its
/// interval (a last fetch in the future thus reads as long ago).
pub open spec fn due(last: Option<Timestamp>, now: Timestamp, interval_secs: u64) -> bool {
    match last {
        None => true,
        Some(l) => elapsed_seconds(l, now) % 0x1_0000_0000_0000_0000 >= interval_secs,
    }
}

/// The remainder of a negative number, from that of its absolute value.
proof fn lemma_negative_mod(e: int, m: int)
    requires
        e < 0,
        m > 0,
    ensures
        e % m == (if (-e) % m == 0 {
            0
        } else {
            m - (-e) % m
        }),
{
    let q = (-e) / m;
    let t = (-e) % m;
    lemma_fundamental_div_mod(-e, m);
    assert(m * q == q * m) by (nonlinear_arith);
    if t == 0 {
        assert(e == (-q) * m + 0) by (nonlinear_arith)
            requires
                -e == q * m + t,
                t == 0,
        ;
        lemma_fundamental_div_mod_converse(e, m, -q, 0);
    } else {
        assert(e == (-q - 1) * m + (m - t)) by (nonlinear_arith)
            requires
                -e == q * m + t,
        ;
        lemma_fundamental_div_mod_converse(e, m, -q - 1, m - t);
    }
}

/// Whether a source is due for a fetch, as `due` states it.
pub fn should_fetch(last: Option<Timestamp>, now: Timestamp, interval_secs: u64) -> (b: bool)
    ensures
        b == due(last, now, interval_secs),
{
    match last {
        None => true,
        Some(l) => {
            let d: i128 = (now.secs as i128 - l.secs as i128) * 1_000_000_000 + (now.nanos as i128
                - l.nanos as i128);
            let e: i128 = if d >= 0 {
                d / 1_000_000_000
            } else {
                -((-d) / 1_000_000_000)
            };
            let m: i128 = 0x1_0000_0000_0000_0000;
            let r: i128 = if e >= 0 {
                e % m
            } else {
                let t = (-e) % m;
                if t == 0 {
                    0
                } else {
                    m - t
                }
            };
            proof {
                assert(e == elapsed_seconds(l, now));
                let ei = e as int;
                let mi = m as int;
                if e < 0 {
                    lemma_negative_mod(ei, mi);
                }
            }
            r >= interval_secs as i128
        },
    }
}

} // verus!

verus! {

/// A source that was never fetched is due, whatever its interval.
pub proof fn law_never_fetched_is_due(now: Timestamp, interval_secs: u64)
    ensures
        due(None, now, interval_secs),
{
}

/// A source fetched at least its interval ago, by the clock, is due.
pub proof fn law_due_after_interval(last: Timestamp, now: Timestamp, interval_secs: u64)
    requires
        0 <= elapsed_seconds(last, now) < 0x1_0000_0000_0000_0000,
        elapsed_seconds(last, now) >= interval_secs,
    ensures
        due(Some(last), now, interval_secs),
{
    let e = elapsed_seconds(last, now);
    assert(e % 0x1_0000_0000_0000_0000 == e) by (nonlinear_arith)
        requires 0 <= e < 0x1_0000_0000_0000_0000;
}

} // verus!
