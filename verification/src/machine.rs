//! The machine engine: owns the transition table, tape, head position,
//! current state and accepting set, and drives execution one step at a time.
//!
//! A step reads the symbol under the head, looks up the rule for the pair
//! (current state, symbol), and — when one exists — writes the rule's
//! symbol, enters the rule's next state and moves the head one cell.  A
//! missing rule is a fatal condition: it is reported to the caller as a
//! typed result and the configuration is left exactly as it was, instead of
//! aborting the process.

use vstd::prelude::*;
use vstd::string::StringExecFns;
use crate::table::Rule;
use crate::table::State;
use crate::table::Table;
use crate::table::TapeMove;
use crate::table::key_model;
use crate::table::rule_model;
use crate::table::table_map;
use crate::tape::Tape;
use crate::tape::TapeModel;
use crate::tape::spec_render;
use crate::tape::tape_read;
use crate::tape::tape_write;
use crate::text::contains_char;
use crate::text::contains_name;
use crate::text::idec;
use crate::text::repeat_char;
use crate::text::spec_idec;
use crate::text::spec_repeat;

verus! {

/// The outcome of one step: the machine can go on, has entered an accepting
/// state, or met a configuration the table does not define (fatal).
#[derive(PartialEq, Eq, Structural, Clone, Copy, Debug)]
pub enum StepResult {
    Continue,
    Halted,
    Fatal,
}

/// Why a run ended without reaching an accepting state.
#[derive(PartialEq, Eq, Structural, Clone, Copy, Debug)]
pub enum RunError {
    /// The table defines no rule for the current (state, symbol) pair.
    MissingRule,
    /// The head reached the edge of the representable position range, a
    /// limit of the representation rather than of the machine being
    /// simulated.
    HeadOutOfRange,
    /// The run performed `u64::MAX` steps without halting or failing — a
    /// budget no terminating machine of practical size exhausts, present so
    /// that the run loop provably consumes it.
    StepLimit,
}

/// The mathematical content of a whole machine configuration.
#[verifier::ext_equal]
pub ghost struct MachineModel {
    pub blank: char,
    pub inputs: Seq<char>,
    pub tape_alphabet: Seq<char>,
    pub table: Map<(Seq<char>, char), Rule>,
    pub state: Seq<char>,
    pub tape: TapeModel,
    pub head: int,
    pub accepting: Set<Seq<char>>,
}

/// The set of state names spelled by a list of accepting-state names.
pub open spec fn names_set(v: Seq<&'static str>) -> Set<Seq<char>> {
    Set::new(|n: Seq<char>| exists|i: int| 0 <= i < v.len() && v[i]@ == n)
}

/// The symbol under the head.
pub open spec fn spec_read_head(m: MachineModel) -> char {
    tape_read(m.tape, m.head, m.blank)
}

/// One step of the machine, as a function of the configuration alone: the
/// next configuration and the reported outcome.  When the table has no rule
/// for (current state, symbol under head) the configuration is returned
/// unchanged with a fatal outcome; otherwise the rule's symbol is written at
/// the head, the rule's next state is entered, the head moves one cell, and
/// the outcome says whether the new state is accepting.
pub open spec fn spec_step(m: MachineModel) -> (MachineModel, StepResult) {
    let sym = spec_read_head(m);
    if m.table.contains_key((m.state, sym)) {
        let rule = m.table[(m.state, sym)];
        let m2 = MachineModel {
            state: rule.next,
            tape: tape_write(m.tape, m.head, rule.write),
            head: if rule.dir == TapeMove::Left {
                m.head - 1
            } else {
                m.head + 1
            },
            ..m
        };
        if m.accepting.contains(rule.next) {
            (m2, StepResult::Halted)
        } else {
            (m2, StepResult::Continue)
        }
    } else {
        (m, StepResult::Fatal)
    }
}

/// The configuration after `n` steps.
pub open spec fn spec_steps(m: MachineModel, n: nat) -> MachineModel
    decreases n,
{
    if n == 0 {
        m
    } else {
        spec_step(spec_steps(m, (n - 1) as nat)).0
    }
}

/// Whether the head of configuration `m` sits at the edge of the
/// representable positions, where a run must stop rather than let a step
/// move past it.
pub open spec fn run_blocked(m: MachineModel) -> bool {
    m.head == i32::MIN || m.head == i32::MAX
}

/// Whether a run from `m0` goes on for at least `n` iterations: no iterate
/// before the `n`th is blocked, and every step among them reports
/// `Continue`.  The first iterate at which this stops determines a run's
/// outcome.
pub open spec fn run_pending(m0: MachineModel, n: nat) -> bool {
    forall|i: nat|
        i < n ==> !run_blocked(#[trigger] spec_steps(m0, i)) && spec_step(spec_steps(m0, i)).1
            == StepResult::Continue
}

/// First-event law: at most one iterate can be the first at which a run
/// stops going on (a blocked head, or a step reporting other than
/// `Continue`).  Together with `run`'s contract this pins a run's result
/// and final configuration as a function of the initial configuration:
/// two runs of identical machines return the same value.
pub proof fn lemma_first_event_unique(m0: MachineModel, a: nat, b: nat)
    requires
        run_pending(m0, a),
        run_blocked(spec_steps(m0, a)) || spec_step(spec_steps(m0, a)).1 != StepResult::Continue,
        run_pending(m0, b),
        run_blocked(spec_steps(m0, b)) || spec_step(spec_steps(m0, b)).1 != StepResult::Continue,
    ensures
        a == b,
{
    if a < b {
        assert(!run_blocked(spec_steps(m0, a)) && spec_step(spec_steps(m0, a)).1
            == StepResult::Continue);
    }
    if b < a {
        assert(!run_blocked(spec_steps(m0, b)) && spec_step(spec_steps(m0, b)).1
            == StepResult::Continue);
    }
}

/// Determinism law: stepping is a function of the configuration, so two
/// runs of the same table and initial tape pass through identical
/// (state, position, tape) sequences.
pub proof fn lemma_run_deterministic(a: MachineModel, b: MachineModel, n: nat)
    requires
        a == b,
    ensures
        spec_step(a) == spec_step(b),
        spec_steps(a, n) == spec_steps(b, n),
{
}

/// Fatal-step law: a step that reports a missing rule leaves state, tape
/// and head position exactly as they were.
pub proof fn lemma_fatal_preserves(m: MachineModel)
    requires
        spec_step(m).1 == StepResult::Fatal,
    ensures
        spec_step(m).0 == m,
        !m.table.contains_key((m.state, spec_read_head(m))),
{
}

/// The number of input characters of `s` that belong to the alphabet
/// `inputs`, i.e. the number of cells the initial tape seeds.
pub open spec fn seed_count(s: Seq<char>, inputs: Seq<char>) -> int
    decreases s.len(),
{
    if s.len() == 0 {
        0
    } else {
        seed_count(s.drop_last(), inputs) + if inputs.contains(s.last()) {
            1int
        } else {
            0int
        }
    }
}

/// The cells seeded by scanning `s` left to right, writing each character
/// that belongs to `inputs` into consecutive positions starting at 0 and
/// silently skipping the rest.
pub open spec fn seed_cells(s: Seq<char>, inputs: Seq<char>) -> Map<i32, char>
    decreases s.len(),
{
    if s.len() == 0 {
        Map::empty()
    } else {
        let m = seed_cells(s.drop_last(), inputs);
        if inputs.contains(s.last()) {
            m.insert(seed_count(s.drop_last(), inputs) as i32, s.last())
        } else {
            m
        }
    }
}

/// The tape produced by seeding from `s`.
pub open spec fn seed_tape(s: Seq<char>, inputs: Seq<char>) -> TapeModel {
    TapeModel {
        cells: seed_cells(s, inputs),
        lo: 0,
        hi: if seed_count(s, inputs) == 0 {
            0
        } else {
            seed_count(s, inputs) - 1
        },
    }
}

/// The caret line of a status snapshot: spaces up to the head's offset in
/// the rendered window, then a caret — or a bare line when the head sits
/// left of the window (negative relative position), a display-only edge
/// case.
pub open spec fn spec_caret_line(m: MachineModel) -> Seq<char> {
    if m.head < m.tape.lo {
        seq!['\n']
    } else {
        spec_repeat(' ', m.head - m.tape.lo) + seq!['^', '\n']
    }
}

/// The name the next step would enter, `"?"` when the table defines no
/// rule for the current configuration.
pub open spec fn spec_next_name(m: MachineModel) -> Seq<char> {
    if m.table.contains_key((m.state, spec_read_head(m))) {
        m.table[(m.state, spec_read_head(m))].next
    } else {
        "?"@
    }
}

/// The detail line of a status snapshot: current state, absolute head
/// position, predicted next state, and the head's (signed) offset from the
/// window's left edge.
pub open spec fn spec_detail_line(m: MachineModel) -> Seq<char> {
    "State:'"@ + m.state + ", Pos: '"@ + spec_idec(m.head) + ", Next State:"@ + spec_next_name(m)
        + ", Relative Pos."@ + spec_idec(m.head - m.tape.lo) + "'\n"@
}

/// The separator line of a status snapshot: one `'='` per rendered cell.
pub open spec fn spec_separator_line(m: MachineModel) -> Seq<char> {
    spec_repeat('=', m.tape.hi - m.tape.lo + 1) + seq!['\n']
}

/// The whole status snapshot: optional separator, the rendered tape, the
/// caret line, an optional detail line, and the closing separator.
pub open spec fn spec_status(m: MachineModel, separator: bool, detailed: bool) -> Seq<char> {
    (if separator {
        spec_separator_line(m)
    } else {
        Seq::<char>::empty()
    }) + spec_render(m.tape, m.blank) + seq!['\n'] + spec_caret_line(m) + (if detailed {
        spec_detail_line(m)
    } else {
        Seq::<char>::empty()
    }) + (if separator {
        spec_separator_line(m)
    } else {
        Seq::<char>::empty()
    })
}

/// A deterministic single-tape Turing machine: rules, tape, head, current
/// state, the blank symbol, the two alphabets, and the accepting states.
pub struct TuringMachine {
    pub blank_symbol: char,
    pub input_symbols: Vec<char>,
    pub tape_symbols: Vec<char>,
    pub states: Table,
    pub current_state: &'static str,
    pub tape: Tape,
    pub current_position: i32,
    pub final_states: Vec<&'static str>,
}

impl View for TuringMachine {
    type V = MachineModel;

    open spec fn view(&self) -> MachineModel {
        MachineModel {
            blank: self.blank_symbol,
            inputs: self.input_symbols@,
            tape_alphabet: self.tape_symbols@,
            table: self.states@,
            state: self.current_state@,
            tape: self.tape@,
            head: self.current_position as int,
            accepting: names_set(self.final_states@),
        }
    }
}

/// The transition table of the built-in example machine.
pub open spec fn init_table() -> Map<(Seq<char>, char), Rule> {
    Map::empty().insert(("q1"@, '0'), Rule { write: '1', dir: TapeMove::Left, next: "q2"@ }).insert(
        ("q2"@, '0'),
        Rule { write: '1', dir: TapeMove::Right, next: "q2"@ },
    ).insert(("q3"@, '0'), Rule { write: '1', dir: TapeMove::Left, next: "q3"@ })
}

impl TuringMachine {
    /// Well-formedness: the table's keys are distinct and the tape's cached
    /// extent brackets exactly its written cells.
    pub open spec fn wf(&self) -> bool {
        &&& self.states.wf()
        &&& self.tape.wf()
    }

    /// A small example machine over the alphabet `{0, 1}` with blank `'_'`,
    /// three rules, initial state `q1` and accepting set `{q3}`, and an
    /// empty tape.
    pub fn init() -> (tm: TuringMachine)
        ensures
            tm.wf(),
            tm@.blank == '_',
            tm@.inputs == seq!['1', '0'],
            tm@.tape_alphabet == seq!['0', '1', '_'],
            tm@.table == init_table(),
            tm@.state == "q1"@,
            tm@.tape.cells == Map::<i32, char>::empty(),
            tm@.tape.lo == 0,
            tm@.tape.hi == 0,
            tm@.head == 0,
            tm@.accepting == Set::<Seq<char>>::empty().insert("q3"@),
    {
        let mut table: Table = Table::new();
        table.insert(
            State {
                name: "q1",
                tape_symbol: '0',
                write_symbol: '1',
                move_tape: TapeMove::Left,
                next_state: "q2",
            },
        );
        table.insert(
            State {
                name: "q2",
                tape_symbol: '0',
                write_symbol: '1',
                move_tape: TapeMove::Right,
                next_state: "q2",
            },
        );
        table.insert(
            State {
                name: "q3",
                tape_symbol: '0',
                write_symbol: '1',
                move_tape: TapeMove::Left,
                next_state: "q3",
            },
        );
        let mut inputs: Vec<char> = Vec::new();
        inputs.push('1');
        inputs.push('0');
        let mut alphabet: Vec<char> = Vec::new();
        alphabet.push('0');
        alphabet.push('1');
        alphabet.push('_');
        let mut finals: Vec<&'static str> = Vec::new();
        finals.push("q3");
        let tm = TuringMachine {
            blank_symbol: '_',
            input_symbols: inputs,
            tape_symbols: alphabet,
            states: table,
            current_state: "q1",
            tape: Tape::new(),
            current_position: 0,
            final_states: finals,
        };
        proof {
            assert(tm@.inputs =~= seq!['1', '0']);
            assert(tm@.tape_alphabet =~= seq!['0', '1', '_']);
            assert(tm@.table =~= init_table());
            assert forall|n: Seq<char>|
                tm@.accepting.contains(n) <==> Set::<Seq<char>>::empty().insert(
                    "q3"@,
                ).contains(n) by {
                if n == "q3"@ {
                    assert(tm.final_states@[0]@ == n);
                }
            }
            assert(tm@.accepting =~= Set::<Seq<char>>::empty().insert("q3"@));
        }
        tm
    }

    /// Builds a machine from its parts and seeds the tape from
    /// `initial_tape`, keeping exactly the characters that belong to the
    /// input alphabet.  Later rules overwrite earlier ones with the same
    /// (state, symbol) key.
    pub fn new(
        blank_symbol: char,
        input_symbols: Vec<char>,
        tape_symbols: Vec<char>,
        states: &[State],
        initial_state: &'static str,
        final_states: Vec<&'static str>,
        initial_tape: &'static str,
    ) -> (tm: TuringMachine)
        requires
            initial_tape@.len() <= i32::MAX,
        ensures
            tm.wf(),
            tm@.blank == blank_symbol,
            tm@.inputs == input_symbols@,
            tm@.tape_alphabet == tape_symbols@,
            tm@.table == table_map(states@),
            tm@.state == initial_state@,
            tm@.tape == seed_tape(initial_tape@, input_symbols@),
            tm@.head == 0,
            tm@.accepting == names_set(final_states@),
    {
        let mut table: Table = Table::new();
        let mut i: usize = 0;
        while i < states.len()
            invariant
                0 <= i <= states@.len(),
                table.wf(),
                table@ == table_map(states@.take(i as int)),
            decreases states@.len() - i,
        {
            table.insert(states[i]);
            proof {
                assert(states@.take(i + 1 as int).drop_last() =~= states@.take(i as int));
                assert(states@.take(i + 1 as int).last() == states@[i as int]);
            }
            i += 1;
        }
        proof {
            assert(states@.take(states@.len() as int) =~= states@);
        }
        let mut tm = TuringMachine {
            blank_symbol,
            input_symbols,
            tape_symbols,
            states: table,
            current_state: initial_state,
            tape: Tape::new(),
            current_position: 0,
            final_states,
        };
        tm.init_tape(initial_tape);
        tm
    }

    /// Replaces the tape with one seeded from `tape_string`: each character
    /// of the input alphabet is written into consecutive positions starting
    /// at 0, and every other character is silently skipped.  The head and
    /// all other parts of the machine are untouched.
    pub fn init_tape(&mut self, tape_string: &str)
        requires
            old(self).wf(),
            tape_string@.len() <= i32::MAX,
        ensures
            final(self).wf(),
            final(self)@ == (MachineModel {
                tape: seed_tape(tape_string@, old(self)@.inputs),
                ..old(self)@
            }),
    {
        self.tape = Tape::new();
        let n: usize = tape_string.unicode_len();
        let mut i: usize = 0;
        let mut next_pos: i32 = 0;
        while i < n
            invariant
                self.blank_symbol == old(self).blank_symbol,
                self.input_symbols == old(self).input_symbols,
                self.tape_symbols == old(self).tape_symbols,
                self.states == old(self).states,
                self.current_state == old(self).current_state,
                self.current_position == old(self).current_position,
                self.final_states == old(self).final_states,
                old(self).wf(),
                n == tape_string@.len() <= i32::MAX,
                0 <= i <= n,
                0 <= next_pos <= i,
                self.tape.wf(),
                self.tape@.cells == seed_cells(
                    tape_string@.take(i as int),
                    self.input_symbols@,
                ),
                next_pos == seed_count(tape_string@.take(i as int), self.input_symbols@),
                (next_pos == 0 <==> self.tape@.cells.dom().is_empty()),
                self.tape@.lo == 0,
                self.tape@.hi == if next_pos == 0 {
                    0int
                } else {
                    next_pos - 1
                },
            decreases n - i,
        {
            let c: char = tape_string.get_char(i);
            proof {
                assert(tape_string@.take(i + 1 as int).drop_last() =~= tape_string@.take(
                    i as int,
                ));
                assert(tape_string@.take(i + 1 as int).last() == tape_string@[i as int]);
            }
            if contains_char(&self.input_symbols, c) {
                self.tape.write(next_pos, c);
                next_pos += 1;
            }
            i += 1;
        }
        proof {
            assert(tape_string@.take(n as int) =~= tape_string@);
            assert(self.tape@ =~= seed_tape(tape_string@, old(self)@.inputs));
            assert(self@ =~= (MachineModel {
                tape: seed_tape(tape_string@, old(self)@.inputs),
                ..old(self)@
            }));
        }
    }

    /// Moves the head one cell in the given direction; nothing else of the
    /// machine changes.
    pub fn move_head(&mut self, direction: TapeMove)
        requires
            direction == TapeMove::Left ==> old(self).current_position > i32::MIN,
            direction == TapeMove::Right ==> old(self).current_position < i32::MAX,
        ensures
            final(self)@ == (MachineModel {
                head: if direction == TapeMove::Left {
                    old(self)@.head - 1
                } else {
                    old(self)@.head + 1
                },
                ..old(self)@
            }),
            old(self).wf() ==> final(self).wf(),
    {
        match direction {
            TapeMove::Left => {
                self.current_position = self.current_position - 1;
            },
            TapeMove::Right => {
                self.current_position = self.current_position + 1;
            },
        }
        proof {
            assert(self@ =~= (MachineModel {
                head: if direction == TapeMove::Left {
                    old(self)@.head - 1
                } else {
                    old(self)@.head + 1
                },
                ..old(self)@
            }));
        }
    }

    /// Reads the symbol under the head, substituting the blank symbol for a
    /// cell never written.  Never fails and never changes the tape.
    pub fn read_head(&self) -> (c: char)
        ensures
            c == spec_read_head(self@),
    {
        self.tape.read(self.current_position, self.blank_symbol)
    }

    /// Writes `symbol` at the head position.  Writing the blank symbol
    /// still stores the cell, so it counts towards the extent.
    pub fn write_head(&mut self, symbol: char)
        requires
            old(self).wf(),
        ensures
            final(self).wf(),
            final(self)@ == (MachineModel {
                tape: tape_write(old(self)@.tape, old(self)@.head, symbol),
                ..old(self)@
            }),
    {
        self.tape.write(self.current_position, symbol);
        proof {
            assert(self@ =~= (MachineModel {
                tape: tape_write(old(self)@.tape, old(self)@.head, symbol),
                ..old(self)@
            }));
        }
    }

    /// Looks up the rule for (`name`, `tape_symbol`).  Returns `None`
    /// exactly when the table does not define that configuration.
    pub fn state(&self, name: &'static str, tape_symbol: char) -> (r: Option<State>)
        requires
            self.wf(),
        ensures
            match r {
                Some(rule) => self@.table.contains_key((name@, tape_symbol)) && key_model(rule)
                    == (name@, tape_symbol) && rule_model(rule) == self@.table[
                    (name@, tape_symbol)
                ],
                None => !self@.table.contains_key((name@, tape_symbol)),
            },
    {
        self.states.lookup(name, tape_symbol)
    }

    /// The name of the state the next step would enter, or `None` when the
    /// table defines no rule for the current configuration.
    pub fn transition(&self) -> (r: Option<&'static str>)
        requires
            self.wf(),
        ensures
            match r {
                Some(n) => self@.table.contains_key((self@.state, spec_read_head(self@)))
                    && n@ == self@.table[(self@.state, spec_read_head(self@))].next,
                None => !self@.table.contains_key((self@.state, spec_read_head(self@))),
            },
    {
        let sym: char = self.read_head();
        match self.state(self.current_state, sym) {
            Some(rule) => Some(rule.next_state),
            None => None,
        }
    }

    /// Whether `name` is one of the accepting state names.
    pub fn is_accepting(&self, name: &str) -> (r: bool)
        ensures
            r == self@.accepting.contains(name@),
    {
        contains_name(&self.final_states, name)
    }

    /// The width of the tape's extent: greatest minus least written
    /// position, 0 while nothing is written.
    pub fn length(&self) -> (n: usize)
        requires
            self.wf(),
            self@.tape.hi - self@.tape.lo <= usize::MAX,
        ensures
            n == self@.tape.hi - self@.tape.lo,
    {
        let extent: (i32, i32) = self.tape.extent();
        let d: i64 = extent.1 as i64 - extent.0 as i64;
        d as usize
    }

    /// The head's offset within the rendered window: head position minus
    /// the least written position.  The head can sit left of the window
    /// after moving past its edge and before the next write; such a
    /// configuration is excluded here and rendered as a bare line by
    /// `status`.
    pub fn relative_position(&self) -> (n: usize)
        requires
            self.wf(),
            self@.head >= self@.tape.lo,
            self@.head - self@.tape.lo <= usize::MAX,
        ensures
            n == self@.head - self@.tape.lo,
    {
        let extent: (i32, i32) = self.tape.extent();
        let d: i64 = self.current_position as i64 - extent.0 as i64;
        d as usize
    }

    /// The rendered tape: one symbol for each position of the extent, with
    /// the blank symbol standing in for unwritten cells.
    pub fn show_tape(&self) -> (s: String)
        requires
            self.wf(),
        ensures
            s@ == spec_render(self@.tape, self@.blank),
    {
        self.tape.render(self.blank_symbol)
    }

    /// Intentionally produces nothing; snapshots are built by `status` and
    /// printed by callers that want them.
    pub fn print_tape_status(&self) {
    }

    /// A read-only textual snapshot: optional separator lines, the rendered
    /// tape, a caret marking the head's offset in the window (a bare line
    /// when the head sits left of the window), and optionally a detail line
    /// with the current state, absolute and relative positions, and the
    /// predicted next state.
    #[verifier::rlimit(60)]
    pub fn status(&self, separator: bool, detailed: bool) -> (s: String)
        requires
            self.wf(),
            self@.tape.hi - self@.tape.lo + 1 <= usize::MAX,
            self@.head >= self@.tape.lo ==> self@.head - self@.tape.lo <= usize::MAX,
        ensures
            s@ == spec_status(self@, separator, detailed),
    {
        let sep_line: String = if separator {
            let width: usize = self.length();
            let mut t: String = repeat_char('=', width + 1);
            t.push('\n');
            t
        } else {
            String::new()
        };
        proof {
            assert(sep_line@ =~= if separator {
                spec_separator_line(self@)
            } else {
                Seq::<char>::empty()
            });
        }
        let mut tape_line: String = self.show_tape();
        tape_line.push('\n');
        let lo: i32 = self.tape.extent().0;
        let caret_line: String = if self.current_position < lo {
            let mut t: String = String::new();
            t.push('\n');
            t
        } else {
            let rel: usize = self.relative_position();
            let mut t: String = repeat_char(' ', rel);
            t.push('^');
            t.push('\n');
            t
        };
        proof {
            assert(caret_line@ =~= spec_caret_line(self@));
        }
        let detail_line: String = if detailed {
            let mut t: String = String::from_str("State:'");
            t.append(self.current_state);
            t.append(", Pos: '");
            let pos_str: String = idec(self.current_position as i64);
            t.append(pos_str.as_str());
            t.append(", Next State:");
            match self.transition() {
                Some(nm) => t.append(nm),
                None => t.append("?"),
            }
            t.append(", Relative Pos.");
            let rel_str: String = idec(self.current_position as i64 - lo as i64);
            t.append(rel_str.as_str());
            t.append("'\n");
            t
        } else {
            String::new()
        };
        proof {
            assert(detail_line@ =~= if detailed {
                spec_detail_line(self@)
            } else {
                Seq::<char>::empty()
            });
        }
        let mut s: String = String::new();
        s.append(sep_line.as_str());
        s.append(tape_line.as_str());
        s.append(caret_line.as_str());
        s.append(detail_line.as_str());
        s.append(sep_line.as_str());
        proof {
            assert(s@ =~= spec_status(self@, separator, detailed));
        }
        s
    }

    /// One step of the protocol: read the symbol under the head, look up
    /// the rule for (current state, symbol), and apply it — write, enter
    /// the next state, move the head — reporting whether the machine can
    /// continue, has entered an accepting state, or met an undefined
    /// configuration (in which case nothing is changed).  The whole step is
    /// atomic: state, tape and position are all updated before it returns.
    pub fn step(&mut self) -> (r: StepResult)
        requires
            old(self).wf(),
            old(self)@.table.contains_key((old(self)@.state, spec_read_head(old(self)@)))
                ==> i32::MIN < old(self).current_position < i32::MAX,
        ensures
            final(self).wf(),
            final(self)@ == spec_step(old(self)@).0,
            r == spec_step(old(self)@).1,
    {
        let sym: char = self.read_head();
        let looked: Option<State> = self.state(self.current_state, sym);
        match looked {
            None => StepResult::Fatal,
            Some(rule) => {
                self.current_state = rule.next_state;
                self.write_head(rule.write_symbol);
                self.move_head(rule.move_tape);
                let halted: bool = self.is_accepting(self.current_state);
                proof {
                    assert(self@ =~= spec_step(old(self)@).0);
                }
                if halted {
                    StepResult::Halted
                } else {
                    StepResult::Continue
                }
            },
        }
    }

    /// Runs the machine step by step and reports the first terminal event
    /// of the step sequence, so the returned value and final configuration
    /// are a function of the initial configuration alone: with `n` the
    /// least iterate at which the run stops going on (`run_pending`), the
    /// result is `Ok` with the accepting state's name when the `n`th step
    /// reports `Halted`, `Err(MissingRule)` when it meets a configuration
    /// the table does not define (left in place, unchanged, for
    /// inspection), `Err(HeadOutOfRange)` when the `n`th iterate's head
    /// sits at the edge of the representable positions, and
    /// `Err(StepLimit)` when `u64::MAX` steps all went on.
    pub fn run(&mut self) -> (r: Result<&'static str, RunError>)
        requires
            old(self).wf(),
        ensures
            final(self).wf(),
            exists|n: nat| final(self)@ == spec_steps(old(self)@, n),
            match r {
                Ok(name) => exists|n: nat|
                    {
                        &&& n < u64::MAX
                        &&& run_pending(old(self)@, n)
                        &&& !run_blocked(#[trigger] spec_steps(old(self)@, n))
                        &&& spec_step(spec_steps(old(self)@, n)).1 == StepResult::Halted
                        &&& final(self)@ == spec_steps(old(self)@, (n + 1) as nat)
                        &&& name@ == final(self)@.state
                        &&& final(self)@.accepting.contains(name@)
                    },
                Err(e) => (e == RunError::MissingRule ==> exists|n: nat|
                    {
                        &&& n < u64::MAX
                        &&& run_pending(old(self)@, n)
                        &&& !run_blocked(#[trigger] spec_steps(old(self)@, n))
                        &&& spec_step(spec_steps(old(self)@, n)).1 == StepResult::Fatal
                        &&& final(self)@ == spec_steps(old(self)@, n)
                        &&& !final(self)@.table.contains_key(
                            (final(self)@.state, spec_read_head(final(self)@)),
                        )
                    }) && (e == RunError::HeadOutOfRange ==> exists|n: nat|
                    {
                        &&& n < u64::MAX
                        &&& run_pending(old(self)@, n)
                        &&& run_blocked(#[trigger] spec_steps(old(self)@, n))
                        &&& final(self)@ == spec_steps(old(self)@, n)
                    }) && (e == RunError::StepLimit ==> run_pending(old(self)@, u64::MAX as nat)
                    && final(self)@ == spec_steps(old(self)@, u64::MAX as nat)),
            },
    {
        let ghost mut n: nat = 0;
        let mut fuel: u64 = u64::MAX;
        while fuel > 0
            invariant
                self.wf(),
                self@ == spec_steps(old(self)@, n),
                n == u64::MAX - fuel,
                run_pending(old(self)@, n),
            decreases fuel,
        {
            if self.current_position == i32::MAX || self.current_position == i32::MIN {
                proof {
                    assert(run_blocked(spec_steps(old(self)@, n)));
                    assert(exists|k: nat| self@ == spec_steps(old(self)@, k)) by {
                        assert(self@ == spec_steps(old(self)@, n));
                    }
                }
                return Err(RunError::HeadOutOfRange);
            }
            proof {
                assert(!run_blocked(spec_steps(old(self)@, n)));
            }
            let res: StepResult = self.step();
            proof {
                n = n + 1;
            }
            fuel -= 1;
            match res {
                StepResult::Continue => {
                    proof {
                        let ghost npre = (n - 1) as nat;
                        assert forall|i: nat| i < n implies !run_blocked(
                            #[trigger] spec_steps(old(self)@, i),
                        ) && spec_step(spec_steps(old(self)@, i)).1 == StepResult::Continue by {
                            if i < npre {
                                assert(run_pending(old(self)@, npre));
                            }
                        }
                    }
                },
                StepResult::Halted => {
                    proof {
                        let ghost npre = (n - 1) as nat;
                        assert(spec_step(spec_steps(old(self)@, npre)).1 == StepResult::Halted);
                        assert(self@ == spec_steps(old(self)@, (npre + 1) as nat));
                        assert(exists|k: nat| self@ == spec_steps(old(self)@, k)) by {
                            assert(self@ == spec_steps(old(self)@, n));
                        }
                    }
                    return Ok(self.current_state);
                },
                StepResult::Fatal => {
                    proof {
                        let ghost npre = (n - 1) as nat;
                        assert(spec_step(spec_steps(old(self)@, npre)).1 == StepResult::Fatal);
                        assert(spec_steps(old(self)@, n) == spec_steps(old(self)@, npre));
                        assert(self@ == spec_steps(old(self)@, npre));
                        assert(exists|k: nat| self@ == spec_steps(old(self)@, k)) by {
                            assert(self@ == spec_steps(old(self)@, n));
                        }
                    }
                    return Err(RunError::MissingRule);
                },
            }
        }
        proof {
            assert(exists|k: nat| self@ == spec_steps(old(self)@, k)) by {
                assert(self@ == spec_steps(old(self)@, n));
            }
        }
        Err(RunError::StepLimit)
    }
}

} // verus!
