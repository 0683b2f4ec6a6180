//! The command processor: classifies each request, routes it to the power
//! state or to the parameter table, and produces the reply.

use vstd::prelude::*;
use vstd::string::StringExecFns;

pub use crate::param::Param;
use crate::param::ParamView;
use crate::power::{clock_nanos, is_power_step};
pub use crate::power::PowerState;
use crate::request::{
    classify, is_line_end, is_name_char, leftmost_set, parse_request, set_match_at, starts_set,
    Request, RequestView,
};
use crate::text::same_text;

verus! {

/// Why a request was refused.
#[derive(Debug, Clone, Copy, PartialEq, Eq, Structural)]
pub enum CommandError {
    /// Unknown or malformed request, a read with no readable value, a write
    /// to a read-only parameter, or `PWR` with a value other than ON or OFF.
    InvalidCommand,
    /// A query that produced no value; never returned at present.
    InvalidQuery,
    /// The validation pattern refused the value.
    InvalidValue,
    /// The parameter needs the lamp on, and it is not.
    InvalidPowerState,
}

/// Name of the pseudo-parameter that drives the power state.
pub open spec fn power_name() -> Seq<char> {
    seq!['P', 'W', 'R']
}

/// The `PWR` value that powers up.
pub open spec fn on_token() -> Seq<char> {
    seq!['O', 'N']
}

/// The `PWR` value that powers down.
pub open spec fn off_token() -> Seq<char> {
    seq!['O', 'F', 'F']
}

/// The reply to a successful query: `NAME=VALUE`.
pub open spec fn query_reply(name: Seq<char>, value: Seq<char>) -> Seq<char> {
    name + seq!['='] + value
}

/// The parameter table that a new processor starts with.
pub open spec fn initial_table() -> Map<Seq<char>, ParamView> {
    Map::empty()
        .insert("SNO"@, ParamView::built("1234567890"@, ""@, true))
        .insert("LAMP"@, ParamView::built("100"@, ""@, false))
        .insert("KEY"@, ParamView::built(""@, "[A-Z0-9]{2}|INIT"@, false))
        .insert("AUTOHOME"@, ParamView::built("00"@, "[A-Z0-9]{2}"@, false))
        .insert("ERR"@, ParamView::built("00"@, ""@, true))
        .insert("FREEZE"@, ParamView::built("OFF"@, "(OFF|ON)"@, false))
        .insert("FASTBOOT"@, ParamView::built("01"@, "\\d{2}"@, false))
        .insert("SIGNAL"@, ParamView::built("01"@, ""@, false))
        .insert("ONTIME"@, ParamView::built("110"@, ""@, false))
        .insert("SOURCE"@, ParamView::built("00"@, "[A-Z0-9]{2}"@, false))
        .insert("MUTE"@, ParamView::built("0000"@, "(OFF|ON)"@, false))
        .insert("VOL"@, ParamView::built("90"@, "\\d+"@, false))
        .insert("ZOOM"@, ParamView::built("0"@, "\\d{1,3}"@, false))
        .insert("HREVERSE"@, ParamView::built("ON"@, "(OFF|ON)"@, false))
        .insert("VREVERSE"@, ParamView::built("ON"@, "(OFF|ON)"@, false))
        .insert("IMGSHIFT"@, ParamView::built("0 1"@, "-?[0-2] -?[0-2]"@, false))
        .insert("REFRESHTIME"@, ParamView::built("00"@, "\\d{2}"@, false))
}

/// The processor as the contracts see it.
pub struct ProcessorView {
    pub params: Map<Seq<char>, ParamView>,
    pub power: PowerState,
    /// Warm-up duration, in seconds.
    pub warming: u64,
    /// Cool-down duration, in seconds.
    pub cooling: u64,
}

/// The view of a processing result: the reply as characters.
pub open spec fn reply_view(r: Result<Option<String>, CommandError>) -> Result<
    Option<Seq<char>>,
    CommandError,
> {
    match r {
        Ok(Some(s)) => Ok(Some(s@)),
        Ok(None) => Ok(None),
        Err(e) => Err(e),
    }
}

impl ProcessorView {
    /// A new processor: the initial table, powered off.
    pub open spec fn initial(warming: u64, cooling: u64) -> ProcessorView {
        ProcessorView { params: initial_table(), power: PowerState::PowerOff, warming, cooling }
    }

    /// May the parameter `name` be reached in power state `power`?
    pub open spec fn reachable(self, name: Seq<char>, power: PowerState) -> bool {
        self.params[name].supported_in_power_off || power is LampOn
    }

    /// The result of a query of `name` at `now`, timed transitions taken first.
    pub open spec fn query(self, name: Seq<char>, now: u64) -> (
        ProcessorView,
        Result<Option<Seq<char>>, CommandError>,
    ) {
        let power = self.power.advanced(now, self.warming, self.cooling);
        let next = ProcessorView { power, ..self };
        if name == power_name() {
            (next, Ok(Some(query_reply(name, power.code()))))
        } else if !self.params.contains_key(name) {
            (next, Err(CommandError::InvalidCommand))
        } else if !self.reachable(name, power) {
            (next, Err(CommandError::InvalidPowerState))
        } else {
            match self.params[name].read() {
                Ok(v) => (next, Ok(Some(query_reply(name, v)))),
                Err(e) => (next, Err(e)),
            }
        }
    }

    /// The result of writing `value` to `name` at `now`. Timed transitions are
    /// taken first, except for `PWR`, which only powers up or down.
    pub open spec fn write(self, name: Seq<char>, value: Seq<char>, now: u64) -> (
        ProcessorView,
        Result<Option<Seq<char>>, CommandError>,
    ) {
        if name == power_name() {
            if value == on_token() {
                (ProcessorView { power: self.power.powered_up(now), ..self }, Ok(None))
            } else if value == off_token() {
                (ProcessorView { power: self.power.powered_down(now), ..self }, Ok(None))
            } else {
                (self, Err(CommandError::InvalidCommand))
            }
        } else {
            let power = self.power.advanced(now, self.warming, self.cooling);
            let next = ProcessorView { power, ..self };
            if !self.params.contains_key(name) {
                (next, Err(CommandError::InvalidCommand))
            } else if !self.reachable(name, power) {
                (next, Err(CommandError::InvalidPowerState))
            } else {
                let (param, r) = self.params[name].set(value);
                match r {
                    Ok(()) => (ProcessorView { params: self.params.insert(name, param), ..next }, Ok(None)),
                    Err(e) => (next, Err(e)),
                }
            }
        }
    }

    /// The processor and the reply after the request `message` at `now`.
    pub open spec fn process(self, message: Seq<char>, now: u64) -> (
        ProcessorView,
        Result<Option<Seq<char>>, CommandError>,
    ) {
        match classify(message) {
            RequestView::Query(name) => self.query(name, now),
            RequestView::Write(name, value) => self.write(name, value, now),
            RequestView::Malformed => (self, Err(CommandError::InvalidCommand)),
        }
    }
}

/// Processing a request never adds or removes a parameter.
pub proof fn lemma_keys_constant(p: ProcessorView, message: Seq<char>, now: u64)
    ensures
        p.process(message, now).0.params.dom() == p.params.dom(),
{
    match classify(message) {
        RequestView::Write(name, value) => {
            if name != power_name() && p.params.contains_key(name) {
                let param = p.params[name].set(value).0;
                assert(p.params.insert(name, param).dom() =~= p.params.dom());
            }
        },
        _ => {},
    }
}

/// Processing a request moves the power state along one edge of the power
/// graph at most.
pub proof fn lemma_power_steps(p: ProcessorView, message: Seq<char>, now: u64)
    ensures
        is_power_step(p.power, p.process(message, now).0.power),
{
}

/// A refused request leaves the table as it was, and leaves the whole processor
/// as it was when no timed transition is due.
pub proof fn lemma_error_keeps_state(p: ProcessorView, message: Seq<char>, now: u64)
    requires
        p.process(message, now).1 is Err,
    ensures
        p.process(message, now).0.params == p.params,
        p.process(message, now).0.warming == p.warming,
        p.process(message, now).0.cooling == p.cooling,
        p.power.advanced(now, p.warming, p.cooling) == p.power ==> p.process(message, now).0 == p,
{
}

/// The request `PWR ON`.
pub open spec fn power_on_request() -> Seq<char> {
    seq!['P', 'W', 'R', ' ', 'O', 'N']
}

/// `PWR ON` in any state but PowerOff changes nothing, not even the instant at
/// which a transient state began.
pub proof fn lemma_repeated_power_on(p: ProcessorView, now: u64)
    requires
        !(p.power is PowerOff),
    ensures
        p.process(power_on_request(), now) == (p, Ok::<Option<Seq<char>>, CommandError>(None)),
{
    let s = power_on_request();
    assert(set_match_at(s, 0, 3));
    assert(leftmost_set(s, 0));
    assert forall|j: int| set_match_at(s, 0, j) implies j == 3 by {
        if j < 3 {
            assert(is_name_char(s[j]));
        } else if j > 3 {
            assert(is_name_char(s[3]));
        }
    }
    assert forall|i: int| leftmost_set(s, i) implies i == 0 by {
        if i > 0 {
            assert(!starts_set(s, 0));
        }
    }
    assert(is_line_end(s, 4, 6));
    assert forall|e: int| is_line_end(s, 4, e) implies e == 6 by {
        if e < 6 {
            assert(s[e] == '\n');
        }
    }
    assert(s.subrange(0, 3) =~= power_name());
    assert(s.subrange(4, 6) =~= on_token());
}

/// The table that a list of named parameters makes.
pub open spec fn table_of(entries: Seq<(String, Param)>) -> Map<Seq<char>, ParamView> {
    Map::new(
        |k: Seq<char>| exists|i: int| 0 <= i < entries.len() && #[trigger] entries[i].0@ == k,
        |k: Seq<char>|
            entries[choose|i: int| 0 <= i < entries.len() && #[trigger] entries[i].0@ == k].1@,
    )
}

/// No name occurs twice.
pub open spec fn names_unique(entries: Seq<(String, Param)>) -> bool {
    forall|i: int, j: int|
        0 <= i < entries.len() && 0 <= j < entries.len() && #[trigger] entries[i].0@
            == #[trigger] entries[j].0@ ==> i == j
}

proof fn lemma_table_at(entries: Seq<(String, Param)>, i: int)
    requires
        names_unique(entries),
        0 <= i < entries.len(),
    ensures
        table_of(entries).contains_key(entries[i].0@),
        table_of(entries)[entries[i].0@] == entries[i].1@,
{
    let k = entries[i].0@;
    assert(table_of(entries).dom().contains(k));
    let c = choose|c: int| 0 <= c < entries.len() && #[trigger] entries[c].0@ == k;
    assert(c == i);
}

proof fn lemma_table_update(entries: Seq<(String, Param)>, i: int, p: Param)
    requires
        names_unique(entries),
        0 <= i < entries.len(),
    ensures
        names_unique(entries.update(i, (entries[i].0, p))),
        table_of(entries.update(i, (entries[i].0, p))) == table_of(entries).insert(
            entries[i].0@,
            p@,
        ),
{
    let after = entries.update(i, (entries[i].0, p));
    let k = entries[i].0@;
    assert forall|a: int, b: int|
        0 <= a < after.len() && 0 <= b < after.len() && #[trigger] after[a].0@
            == #[trigger] after[b].0@ implies a == b by {
        assert(entries[a].0@ == entries[b].0@);
    }
    assert forall|key: Seq<char>|
        #[trigger] table_of(after).contains_key(key) <==> table_of(entries).insert(
            k,
            p@,
        ).contains_key(key) by {
        if table_of(entries).contains_key(key) {
            let c = choose|c: int| 0 <= c < entries.len() && #[trigger] entries[c].0@ == key;
            assert(after[c].0@ == key);
        }
        if table_of(after).contains_key(key) {
            let c = choose|c: int| 0 <= c < after.len() && #[trigger] after[c].0@ == key;
            assert(entries[c].0@ == key);
        }
    }
    assert forall|key: Seq<char>| #[trigger]
        table_of(after).contains_key(key) implies table_of(after)[key] == table_of(
            entries,
        ).insert(k, p@)[key] by {
        let c = choose|c: int| 0 <= c < after.len() && #[trigger] after[c].0@ == key;
        assert(entries[c].0@ == key);
        if key != k {
            lemma_table_at(entries, c);
        }
    }
    assert(table_of(after) =~= table_of(entries).insert(k, p@));
}

proof fn lemma_table_push(entries: Seq<(String, Param)>, name: String, p: Param)
    requires
        names_unique(entries),
        !table_of(entries).contains_key(name@),
    ensures
        names_unique(entries.push((name, p))),
        table_of(entries.push((name, p))) == table_of(entries).insert(name@, p@),
{
    let after = entries.push((name, p));
    let n = entries.len() as int;
    assert forall|a: int, b: int|
        0 <= a < after.len() && 0 <= b < after.len() && #[trigger] after[a].0@
            == #[trigger] after[b].0@ implies a == b by {
        if a < n && b == n {
            assert(table_of(entries).contains_key(entries[a].0@));
        } else if a == n && b < n {
            assert(table_of(entries).contains_key(entries[b].0@));
        } else if a < n && b < n {
            assert(entries[a].0@ == entries[b].0@);
        }
    }
    assert forall|key: Seq<char>|
        #[trigger] table_of(after).contains_key(key) <==> table_of(entries).insert(
            name@,
            p@,
        ).contains_key(key) by {
        if table_of(entries).contains_key(key) {
            let c = choose|c: int| 0 <= c < entries.len() && #[trigger] entries[c].0@ == key;
            assert(after[c].0@ == key);
        }
        if key == name@ {
            assert(after[n].0@ == key);
        }
        if table_of(after).contains_key(key) {
            let c = choose|c: int| 0 <= c < after.len() && #[trigger] after[c].0@ == key;
            if c < n {
                assert(entries[c].0@ == key);
            }
        }
    }
    assert forall|key: Seq<char>| #[trigger]
        table_of(after).contains_key(key) implies table_of(after)[key] == table_of(
            entries,
        ).insert(name@, p@)[key] by {
        let c = choose|c: int| 0 <= c < after.len() && #[trigger] after[c].0@ == key;
        if c < n {
            assert(entries[c].0@ == key);
            lemma_table_at(entries, c);
            lemma_table_at(after, c);
        } else {
            lemma_table_at(after, n);
        }
    }
    assert(table_of(after) =~= table_of(entries).insert(name@, p@));
}

/// The projector: a parameter table and a power state.
pub struct CommandProcessor {
    commands: Vec<(String, Param)>,
    power_state: PowerState,
    warming: u64,
    cooling: u64,
}

impl View for CommandProcessor {
    type V = ProcessorView;

    closed spec fn view(&self) -> ProcessorView {
        ProcessorView {
            params: table_of(self.commands@),
            power: self.power_state,
            warming: self.warming,
            cooling: self.cooling,
        }
    }
}

impl CommandProcessor {
    /// The table's names are distinct.
    pub closed spec fn wf(&self) -> bool {
        names_unique(self.commands@)
    }

    /// A processor with the initial table, powered off, with the given warm-up
    /// and cool-down durations in seconds.
    pub fn new(warming: u64, cooling: u64) -> (p: CommandProcessor)
        ensures
            p.wf(),
            p@ == ProcessorView::initial(warming, cooling),
    {
        let mut p = CommandProcessor {
            commands: Vec::new(),
            power_state: PowerState::PowerOff,
            warming,
            cooling,
        };
        assert(table_of(p.commands@) =~= Map::empty());
        p.put("SNO", Param::new("1234567890", "", true));
        p.put("LAMP", Param::new("100", "", false));
        p.put("KEY", Param::new("", "[A-Z0-9]{2}|INIT", false));
        p.put("AUTOHOME", Param::new("00", "[A-Z0-9]{2}", false));
        p.put("ERR", Param::new("00", "", true));
        p.put("FREEZE", Param::new("OFF", "(OFF|ON)", false));
        p.put("FASTBOOT", Param::new("01", "\\d{2}", false));
        p.put("SIGNAL", Param::new("01", "", false));
        p.put("ONTIME", Param::new("110", "", false));
        p.put("SOURCE", Param::new("00", "[A-Z0-9]{2}", false));
        p.put("MUTE", Param::new("0000", "(OFF|ON)", false));
        p.put("VOL", Param::new("90", "\\d+", false));
        p.put("ZOOM", Param::new("0", "\\d{1,3}", false));
        p.put("HREVERSE", Param::new("ON", "(OFF|ON)", false));
        p.put("VREVERSE", Param::new("ON", "(OFF|ON)", false));
        p.put("IMGSHIFT", Param::new("0 1", "-?[0-2] -?[0-2]", false));
        p.put("REFRESHTIME", Param::new("00", "\\d{2}", false));
        p
    }

    /// Where `name` stands in the table, if it does.
    fn find(&self, name: &str) -> (r: Option<usize>)
        requires
            self.wf(),
        ensures
            r matches Some(i) ==> i < self.commands@.len() && self.commands@[i as int].0@
                == name@,
            r is None ==> !self@.params.contains_key(name@),
    {
        let mut i: usize = 0;
        while i < self.commands.len()
            invariant
                i <= self.commands@.len(),
                forall|k: int| 0 <= k < i ==> self.commands@[k].0@ != name@,
            decreases self.commands@.len() - i,
        {
            if same_text(self.commands[i].0.as_str(), name) {
                return Some(i);
            }
            i = i + 1;
        }
        None
    }

    /// Enters `param` under `name`, in place of any parameter of that name.
    fn put(&mut self, name: &str, param: Param)
        requires
            old(self).wf(),
        ensures
            final(self).wf(),
            final(self)@ == (ProcessorView {
                params: old(self)@.params.insert(name@, param@),
                ..old(self)@
            }),
    {
        match self.find(name) {
            Some(i) => {
                proof {
                    lemma_table_update(self.commands@, i as int, param);
                }
                self.commands[i].1 = param;
            },
            None => {
                let owned = name.to_owned();
                proof {
                    lemma_table_push(self.commands@, owned, param);
                }
                self.commands.push((owned, param));
            },
        }
    }

    /// Handles one framed request: the reply to a query, nothing for a
    /// successful set, or the reason for refusing it.
    pub fn process_message(&mut self, message: &str) -> (r: Result<Option<String>, CommandError>)
        requires
            old(self).wf(),
        ensures
            final(self).wf(),
            exists|now: u64| (final(self)@, reply_view(r)) == old(self)@.process(message@, now),
    {
        let now = clock_nanos();
        self.process_message_at(message, now)
    }

    /// `process_message`, with the current time given in nanoseconds since
    /// the Unix epoch.
    pub fn process_message_at(&mut self, message: &str, now: u64) -> (r: Result<
        Option<String>,
        CommandError,
    >)
        requires
            old(self).wf(),
        ensures
            final(self).wf(),
            (final(self)@, reply_view(r)) == old(self)@.process(message@, now),
    {
        match parse_request(message) {
            Request::Query(name) => match self.process_query(name, now) {
                Ok(reply) => Ok(Some(reply)),
                Err(e) => Err(e),
            },
            Request::Write(name, value) => match self.process_set(name, value, now) {
                Ok(()) => Ok(None),
                Err(e) => Err(e),
            },
            Request::Malformed => Err(CommandError::InvalidCommand),
        }
    }

    fn process_query(&mut self, command: &str, now: u64) -> (r: Result<String, CommandError>)
        requires
            old(self).wf(),
        ensures
            final(self).wf(),
            (final(self)@, reply_view(
                match r {
                    Ok(s) => Ok(Some(s)),
                    Err(e) => Err(e),
                },
            )) == old(self)@.query(command@, now),
    {
        self.power_state.advance_at(now, self.warming, self.cooling);
        proof {
            reveal_strlit("PWR");
            reveal_strlit("=");
            assert("PWR"@ =~= power_name());
            assert("="@ =~= seq!['=']);
        }
        if same_text(command, "PWR") {
            let mut reply = String::from_str(command);
            reply.append("=");
            reply.append(self.power_state.as_str());
            return Ok(reply);
        }
        match self.find(command) {
            None => Err(CommandError::InvalidCommand),
            Some(i) => {
                proof {
                    lemma_table_at(self.commands@, i as int);
                }
                let param = &self.commands[i].1;
                if param.supported_in_power_off() || matches!(self.power_state, PowerState::LampOn) {
                    match param.get_value() {
                        Ok(value) => {
                            let mut reply = String::from_str(command);
                            reply.append("=");
                            reply.append(value.as_str());
                            Ok(reply)
                        },
                        Err(e) => Err(e),
                    }
                } else {
                    Err(CommandError::InvalidPowerState)
                }
            },
        }
    }

    fn process_set(&mut self, command: &str, value: &str, now: u64) -> (r: Result<(), CommandError>)
        requires
            old(self).wf(),
        ensures
            final(self).wf(),
            (final(self)@, reply_view(
                match r {
                    Ok(()) => Ok(None),
                    Err(e) => Err(e),
                },
            )) == old(self)@.write(command@, value@, now),
    {
        proof {
            reveal_strlit("PWR");
            reveal_strlit("ON");
            reveal_strlit("OFF");
            assert("PWR"@ =~= power_name());
            assert("ON"@ =~= on_token());
            assert("OFF"@ =~= off_token());
        }
        if same_text(command, "PWR") {
            if same_text(value, "ON") {
                self.power_state.power_up_at(now);
            } else if same_text(value, "OFF") {
                self.power_state.power_down_at(now);
            } else {
                return Err(CommandError::InvalidCommand);
            }
            return Ok(());
        }
        self.power_state.advance_at(now, self.warming, self.cooling);
        match self.find(command) {
            None => Err(CommandError::InvalidCommand),
            Some(i) => {
                proof {
                    lemma_table_at(self.commands@, i as int);
                }
                if self.commands[i].1.supported_in_power_off() || matches!(
                    self.power_state,
                    PowerState::LampOn
                ) {
                    let ghost before = self.commands@;
                    let r = self.commands[i].1.set_value(value);
                    proof {
                        lemma_table_update(before, i as int, self.commands@[i as int].1);
                        assert(self.commands@ == before.update(
                            i as int,
                            (before[i as int].0, self.commands@[i as int].1),
                        ));
                        if r is Err {
                            assert(table_of(before).insert(command@, table_of(before)[command@])
                                =~= table_of(before));
                        }
                    }
                    r
                } else {
                    Err(CommandError::InvalidPowerState)
                }
            },
        }
    }
}

} // verus!
