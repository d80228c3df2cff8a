//! Circuit-status and node-identity replies, and the wait for a usable circuit.
use vstd::prelude::*;
use crate::reply::ControlError;
use crate::text::{
    contains, contains_exec, find_char, find_from, has_prefix, slice_string, split_by, split_on,
    split_words, starts_with, views, words,
};

verus! {

/// One circuit as the daemon reported it.
#[derive(Debug, Clone, PartialEq, Eq)]
pub struct Circuit {
    pub id: String,
    pub status: String,
    /// Node fingerprints, first hop first.
    pub path: Vec<String>,
    pub purpose: String,
}

/// A circuit in plain values.
pub struct CircuitView {
    pub id: Seq<char>,
    pub status: Seq<char>,
    pub path: Seq<Seq<char>>,
    pub purpose: Seq<char>,
}

impl View for Circuit {
    type V = CircuitView;

    open spec fn view(&self) -> CircuitView {
        CircuitView {
            id: self.id@,
            status: self.status@,
            path: views(self.path@),
            purpose: self.purpose@,
        }
    }
}

/// The fingerprint that a path entry `$FINGERPRINT` or `$FINGERPRINT~nickname`
/// names; `None` for an entry without the `$` or with nothing before the `~`.
pub open spec fn fingerprint_of(entry: Seq<char>) -> Option<Seq<char>> {
    if entry.len() > 0 && entry[0] == '$' && find_from(entry, '~', 1) > 1 {
        Some(entry.subrange(1, find_from(entry, '~', 1)))
    } else {
        None
    }
}

/// The fingerprints of the first `n` path entries, malformed entries left out.
pub open spec fn path_prefix(entries: Seq<Seq<char>>, n: int) -> Seq<Seq<char>>
    decreases n,
{
    if n <= 0 {
        seq![]
    } else {
        let earlier = path_prefix(entries, n - 1);
        match fingerprint_of(entries[n - 1]) {
            Some(f) => earlier.push(f),
            None => earlier,
        }
    }
}

pub open spec fn path_of(field: Seq<char>) -> Seq<Seq<char>> {
    let entries = split_on(field, ',');
    path_prefix(entries, entries.len() as int)
}

/// The value of the first `PURPOSE=` word at or after word `i`, or `UNKNOWN`.
pub open spec fn purpose_from(ws: Seq<Seq<char>>, i: int) -> Seq<char>
    decreases ws.len() - i,
{
    if i < 0 || i >= ws.len() {
        "UNKNOWN"@
    } else if has_prefix(ws[i], "PURPOSE="@) {
        ws[i].subrange(8, ws[i].len() as int)
    } else {
        purpose_from(ws, i + 1)
    }
}

/// The circuit that one circuit-status line describes: its words are the id,
/// the status, the path and `KEY=VALUE` flags. A line of fewer than three
/// words describes none.
pub open spec fn circuit_of(line: Seq<char>) -> Option<CircuitView> {
    let ws = words(line);
    if ws.len() < 3 {
        None
    } else {
        Some(CircuitView { id: ws[0], status: ws[1], path: path_of(ws[2]), purpose: purpose_from(ws, 3) })
    }
}

/// The circuits that the first `n` lines of a circuit-status reply describe;
/// the `circuit-status=` header and malformed lines are skipped.
pub open spec fn circuits_prefix(lines: Seq<Seq<char>>, n: int) -> Seq<CircuitView>
    decreases n,
{
    if n <= 0 {
        seq![]
    } else {
        let earlier = circuits_prefix(lines, n - 1);
        if has_prefix(lines[n - 1], "circuit-status="@) {
            earlier
        } else {
            match circuit_of(lines[n - 1]) {
                Some(c) => earlier.push(c),
                None => earlier,
            }
        }
    }
}

pub open spec fn circuits_of(lines: Seq<Seq<char>>) -> Seq<CircuitView> {
    circuits_prefix(lines, lines.len() as int)
}

pub open spec fn circuit_views(cs: Seq<Circuit>) -> Seq<CircuitView> {
    cs.map_values(|c: Circuit| c@)
}

/// A circuit that general traffic can use.
pub open spec fn is_usable(c: CircuitView) -> bool {
    c.status == "BUILT"@ && contains(c.purpose, "GENERAL"@)
}

pub open spec fn any_usable(cs: Seq<CircuitView>) -> bool {
    exists|i: int| 0 <= i < cs.len() && is_usable(#[trigger] cs[i])
}

/// The fingerprint in one path entry.
pub fn parse_path_entry(entry: &str) -> (r: Option<String>)
    ensures
        r matches Some(f) <==> fingerprint_of(entry@) is Some,
        r matches Some(f) ==> fingerprint_of(entry@) == Some(f@),
{
    let n = entry.unicode_len();
    if n == 0 || entry.get_char(0) != '$' {
        return None;
    }
    let j = find_char(entry, '~', 1);
    if j > 1 {
        Some(slice_string(entry, 1, j))
    } else {
        None
    }
}

/// The fingerprints in a comma-separated path field.
pub fn parse_path(field: &str) -> (r: Vec<String>)
    ensures
        views(r@) == path_of(field@),
{
    let entries = split_by(field, ',');
    let ghost ev = views(entries@);
    let mut out: Vec<String> = Vec::new();
    let mut i: usize = 0;
    while i < entries.len()
        invariant
            i <= entries@.len(),
            ev == views(entries@),
            ev == split_on(field@, ','),
            views(out@) == path_prefix(ev, i as int),
        decreases entries@.len() - i,
    {
        match parse_path_entry(entries[i].as_str()) {
            Some(f) => {
                proof {
                    assert(views(out@.push(f)) =~= views(out@).push(f@));
                }
                out.push(f);
            },
            None => {},
        }
        i = i + 1;
    }
    out
}

/// The purpose among the words from `from` on.
fn parse_purpose(ws: &Vec<String>, from: usize) -> (r: String)
    ensures
        r@ == purpose_from(views(ws@), from as int),
{
    let ghost wv = views(ws@);
    let mut i: usize = from;
    while i < ws.len()
        invariant
            from <= i,
            wv == views(ws@),
            purpose_from(wv, i as int) == purpose_from(wv, from as int),
        decreases ws@.len() - i,
    {
        let w = ws[i].as_str();
        if starts_with(w, "PURPOSE=") {
            proof {
                reveal_strlit("PURPOSE=");
            }
            return slice_string(w, 8, w.unicode_len());
        }
        i = i + 1;
    }
    "UNKNOWN".to_owned()
}

/// Parses one circuit-status line.
pub fn parse_circuit_line(line: &str) -> (r: Option<Circuit>)
    ensures
        r matches Some(c) <==> circuit_of(line@) is Some,
        r matches Some(c) ==> circuit_of(line@) == Some(c@),
{
    let ws = split_words(line);
    if ws.len() < 3 {
        return None;
    }
    let id = ws[0].clone();
    let status = ws[1].clone();
    let path = parse_path(ws[2].as_str());
    let purpose = parse_purpose(&ws, 3);
    Some(Circuit { id, status, path, purpose })
}

/// The circuits in the content of a `GETINFO circuit-status` reply.
pub fn parse_circuit_status(lines: &[String]) -> (r: Vec<Circuit>)
    ensures
        circuit_views(r@) == circuits_of(views(lines@)),
{
    let ghost lv = views(lines@);
    let mut out: Vec<Circuit> = Vec::new();
    let mut i: usize = 0;
    while i < lines.len()
        invariant
            i <= lines@.len(),
            lv == views(lines@),
            circuit_views(out@) == circuits_prefix(lv, i as int),
        decreases lines@.len() - i,
    {
        let line = lines[i].as_str();
        if !starts_with(line, "circuit-status=") {
            match parse_circuit_line(line) {
                Some(c) => {
                    proof {
                        assert(circuit_views(out@.push(c)) =~= circuit_views(out@).push(c@));
                    }
                    out.push(c);
                },
                None => {},
            }
        }
        i = i + 1;
    }
    out
}

impl Circuit {
    /// Built, and with a purpose that mentions `GENERAL`.
    pub fn is_usable(&self) -> (r: bool)
        ensures
            r == is_usable(self@),
    {
        let built = self.status.eq(&"BUILT".to_owned());
        built && contains_exec(self.purpose.as_str(), "GENERAL")
    }
}

/// Whether some circuit in `cs` is usable.
pub fn has_usable(cs: &[Circuit]) -> (r: bool)
    ensures
        r == any_usable(circuit_views(cs@)),
{
    let ghost cv = circuit_views(cs@);
    let mut i: usize = 0;
    while i < cs.len()
        invariant
            i <= cs@.len(),
            cv == circuit_views(cs@),
            forall|j: int| 0 <= j < i ==> !is_usable(#[trigger] cv[j]),
        decreases cs@.len() - i,
    {
        if cs[i].is_usable() {
            assert(is_usable(cv[i as int]));
            return true;
        }
        i = i + 1;
    }
    false
}

/// A router summary line: `r <nickname> <identity> <field> ...`.
pub open spec fn is_router_line(ws: Seq<Seq<char>>) -> bool {
    ws.len() > 3 && ws[0] == "r"@
}

/// Nickname and positional field of the first router summary line at or after line `i`.
pub open spec fn router_from(lines: Seq<Seq<char>>, i: int) -> Option<(Seq<char>, Seq<char>)>
    decreases lines.len() - i,
{
    if i < 0 || i >= lines.len() {
        None
    } else if is_router_line(words(lines[i])) {
        Some((words(lines[i])[1], words(lines[i])[3]))
    } else {
        router_from(lines, i + 1)
    }
}

/// The first six characters of a node id, or all of a shorter one.
pub open spec fn short_id(id: Seq<char>) -> Seq<char> {
    if id.len() < 6 {
        id
    } else {
        id.subrange(0, 6)
    }
}

/// What a node resolves to when nothing better is known.
pub open spec fn fallback_node(id: Seq<char>) -> (Seq<char>, Seq<char>) {
    (short_id(id), "??"@)
}

/// Nickname and country of node `id` from the content of its `GETINFO ns/id/`
/// reply, or the fallback where no router summary line is found.
pub open spec fn node_info_of(id: Seq<char>, lines: Seq<Seq<char>>) -> (Seq<char>, Seq<char>) {
    match router_from(lines, 0) {
        Some(p) => p,
        None => fallback_node(id),
    }
}

/// The command that asks for the status of every circuit.
pub fn circuit_status_query() -> (r: String)
    ensures
        r@ == "GETINFO circuit-status"@,
{
    "GETINFO circuit-status".to_owned()
}

/// The command that asks for the network-status entry of node `id`.
pub fn node_query(id: &str) -> (r: String)
    ensures
        r@ == "GETINFO ns/id/"@ + id@,
{
    "GETINFO ns/id/".to_owned().concat(id)
}

fn fallback_exec(id: &str) -> (r: (String, String))
    ensures
        (r.0@, r.1@) == fallback_node(id@),
{
    let n = id.unicode_len();
    let short = if n < 6 { slice_string(id, 0, n) } else { slice_string(id, 0, 6) };
    proof {
        assert(id@.subrange(0, n as int) =~= id@);
    }
    (short, "??".to_owned())
}

/// Nickname and country of node `id` from its reply content.
pub fn node_info(id: &str, lines: &[String]) -> (r: (String, String))
    ensures
        (r.0@, r.1@) == node_info_of(id@, views(lines@)),
{
    let ghost lv = views(lines@);
    let mut i: usize = 0;
    while i < lines.len()
        invariant
            i <= lines@.len(),
            lv == views(lines@),
            router_from(lv, i as int) == router_from(lv, 0),
        decreases lines@.len() - i,
    {
        let ws = split_words(lines[i].as_str());
        if ws.len() > 3 && ws[0].eq(&"r".to_owned()) {
            return (ws[1].clone(), ws[3].clone());
        }
        i = i + 1;
    }
    fallback_exec(id)
}

/// Resolves node `id` from the outcome of its query. A failed query degrades
/// to the fallback instead of failing the caller.
pub fn resolve_node(id: &str, reply: &Result<Vec<String>, ControlError>) -> (r: (String, String))
    ensures
        reply matches Ok(lines) ==> (r.0@, r.1@) == node_info_of(id@, views(lines@)),
        reply is Err ==> (r.0@, r.1@) == fallback_node(id@),
{
    match reply {
        Ok(lines) => node_info(id, lines.as_slice()),
        Err(_) => fallback_exec(id),
    }
}

/// How many times the wait for a usable circuit polls by default.
pub const CIRCUIT_POLL_BUDGET: u32 = 30;

/// Seconds between two polls of the wait for a usable circuit.
pub const CIRCUIT_POLL_INTERVAL_SECS: u64 = 1;

/// What to do after one poll of the circuit list.
#[derive(Debug, Clone, Copy, PartialEq, Eq, Structural)]
pub enum WaitStep {
    Ready,
    PollAgain,
    TimedOut,
}

/// The poll count and step after a poll that found a usable circuit or not,
/// when `polls` polls came before it.
pub open spec fn observe_spec(polls: nat, budget: nat, usable: bool) -> (nat, WaitStep) {
    if usable {
        (polls + 1, WaitStep::Ready)
    } else if polls + 1 >= budget {
        (polls + 1, WaitStep::TimedOut)
    } else {
        (polls + 1, WaitStep::PollAgain)
    }
}

/// The polls made and the step reached when the polls find `found`, in order,
/// starting after `polls` polls; `PollAgain` where `found` runs out first.
pub open spec fn run_wait(budget: nat, polls: nat, found: Seq<bool>) -> (nat, WaitStep)
    decreases found.len(),
{
    if found.len() == 0 {
        (polls, WaitStep::PollAgain)
    } else {
        let (p, step) = observe_spec(polls, budget, found[0]);
        if step == WaitStep::PollAgain {
            run_wait(budget, p, found.drop_first())
        } else {
            (p, step)
        }
    }
}

/// A bounded wait for a usable circuit, one poll at a time.
pub struct CircuitWait {
    pub polls: u32,
    pub budget: u32,
}

impl CircuitWait {
    pub fn new(budget: u32) -> (r: CircuitWait)
        ensures
            r.polls == 0,
            r.budget == budget,
    {
        CircuitWait { polls: 0, budget }
    }

    /// No poll is left.
    pub fn is_exhausted(&self) -> (r: bool)
        ensures
            r == (self.polls >= self.budget),
    {
        self.polls >= self.budget
    }

    /// Records one poll that listed `circuits`.
    pub fn observe(&mut self, circuits: &[Circuit]) -> (r: WaitStep)
        requires
            old(self).polls < old(self).budget,
        ensures
            (final(self).polls as nat, r) == observe_spec(
                old(self).polls as nat,
                old(self).budget as nat,
                any_usable(circuit_views(circuits@)),
            ),
            final(self).budget == old(self).budget,
    {
        let usable = has_usable(circuits);
        self.polls = self.polls + 1;
        if usable {
            WaitStep::Ready
        } else if self.polls >= self.budget {
            WaitStep::TimedOut
        } else {
            WaitStep::PollAgain
        }
    }
}

/// The wait ends at the first poll that finds a usable circuit, and when none
/// does, it times out after exactly its budget of polls, starting after
/// `polls` polls.
pub proof fn lemma_wait_outcome(budget: nat, polls: nat, found: Seq<bool>)
    requires
        polls < budget,
        found.len() >= budget - polls,
    ensures
        (forall|i: int| 0 <= i < budget - polls ==> !found[i]) ==> run_wait(budget, polls, found) == (
        budget,
        WaitStep::TimedOut,
        ),
        forall|k: int|
            0 <= k < budget - polls && found[k] && (forall|i: int| 0 <= i < k ==> !found[i])
                ==> run_wait(budget, polls, found) == ((polls + k + 1) as nat, WaitStep::Ready),
    decreases budget - polls,
{
    if !found[0] && polls + 1 < budget {
        let rest = found.drop_first();
        lemma_wait_outcome(budget, polls + 1, rest);
        assert forall|k: int|
            0 <= k < budget - polls && found[k] && (forall|i: int| 0 <= i < k ==> !found[i])
                implies run_wait(budget, polls, found) == ((polls + k + 1) as nat, WaitStep::Ready) by {
            assert(k >= 1);
            assert(rest[k - 1] == found[k]);
            assert forall|i: int| 0 <= i < k - 1 implies !rest[i] by {
                assert(rest[i] == found[i + 1]);
            }
        }
        if forall|i: int| 0 <= i < budget - polls ==> !found[i] {
            assert forall|i: int| 0 <= i < budget - (polls + 1) implies !rest[i] by {
                assert(rest[i] == found[i + 1]);
            }
        }
    }
}

/// Waiting for a usable circuit from the start: ready at the first poll that
/// finds one, and timed out after exactly `budget` polls where none does.
pub proof fn lemma_wait_until_usable(budget: nat, found: Seq<bool>)
    requires
        budget > 0,
        found.len() >= budget,
    ensures
        (forall|i: int| 0 <= i < budget ==> !found[i]) ==> run_wait(budget, 0, found) == (
        budget,
        WaitStep::TimedOut,
        ),
        forall|k: int|
            0 <= k < budget && found[k] && (forall|i: int| 0 <= i < k ==> !found[i])
                ==> run_wait(budget, 0, found) == ((k + 1) as nat, WaitStep::Ready),
{
    lemma_wait_outcome(budget, 0, found);
}

} // verus!
