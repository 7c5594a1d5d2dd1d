//! Human-readable text for mutators and plans.
use crate::datum::Datum;
use crate::localstate::LocalState;
use crate::mutator::Mutator;
use crate::planner::{node_state, Node};
use vstd::prelude::*;
use vstd::string::StringExecFns;

verus! {

/// The text of one decimal digit.
pub open spec fn digit_text(d: nat) -> Seq<char> {
    if d == 0 {
        "0"@
    } else if d == 1 {
        "1"@
    } else if d == 2 {
        "2"@
    } else if d == 3 {
        "3"@
    } else if d == 4 {
        "4"@
    } else if d == 5 {
        "5"@
    } else if d == 6 {
        "6"@
    } else if d == 7 {
        "7"@
    } else if d == 8 {
        "8"@
    } else {
        "9"@
    }
}

/// The decimal text of a natural number, without leading zeros.
pub open spec fn decimal(n: nat) -> Seq<char>
    decreases n,
{
    if n < 10 {
        digit_text(n)
    } else {
        decimal(n / 10) + digit_text(n % 10)
    }
}

/// The text of a datum: `true` or `false`, a signed decimal integer, or the
/// ordinal of an enum value.
pub open spec fn datum_text(d: Datum) -> Seq<char> {
    match d {
        Datum::Bool(b) => if b {
            "true"@
        } else {
            "false"@
        },
        Datum::I64(x) => if x < 0 {
            "-"@ + decimal((-x) as nat)
        } else {
            decimal(x as nat)
        },
        Datum::Enum(e) => decimal(e as nat),
    }
}

/// The line for one mutator: its key, `=`, `+` or `-`, and its datum.
pub open spec fn mutator_line(m: Mutator) -> Seq<char> {
    match m {
        Mutator::Assign(k, v) => "\t\t"@ + k@ + " = "@ + datum_text(v) + "\n"@,
        Mutator::Increment(k, v) => "\t\t"@ + k@ + " + "@ + datum_text(v) + "\n"@,
        Mutator::Decrement(k, v) => "\t\t"@ + k@ + " - "@ + datum_text(v) + "\n"@,
    }
}

/// The lines for a list of mutators, in order.
pub open spec fn mutators_text(ms: Seq<Mutator>) -> Seq<char>
    decreases ms.len(),
{
    if ms.len() == 0 {
        Seq::empty()
    } else {
        mutators_text(ms.drop_last()) + mutator_line(ms.last())
    }
}

/// One line per entry of a state, in key order.
pub open spec fn entries_text(es: Seq<(Seq<char>, Datum)>) -> Seq<char>
    decreases es.len(),
{
    if es.len() == 0 {
        Seq::empty()
    } else {
        entries_text(es.drop_last()) + "\t\t"@ + es.last().0 + " = "@ + datum_text(es.last().1)
            + "\n"@
    }
}

/// The text that `{:?}` gives for a string: quoted, special characters escaped.
pub uninterp spec fn debug_text(s: Seq<char>) -> Seq<char>;

/// Relies on the `Debug` impl of `str`, through `format!("{:?}", ..)`: its
/// output depends on the characters alone.
#[verifier::external_body]
fn debug_quoted(s: &str) -> (r: String)
    ensures
        r@ == debug_text(s@),
{
    format!("{:?}", s)
}

/// The block for one node of a plan, with the separator after it.
pub open spec fn node_text(n: Node) -> Seq<char> {
    match n {
        Node::Effect(e) => "\t\t= DO ACTION "@ + debug_text(e.action@) + "\n"@ + "\t\tMUTATES:\n"@
            + mutators_text(e.mutators@) + "\n\t\t---\n"@,
        Node::State(s) => "\t\t= INITIAL STATE\n"@ + entries_text(s.entries()) + "\n\t\t---\n"@,
    }
}

/// The blocks for the nodes of a plan, in order.
pub open spec fn nodes_text(p: Seq<Node>) -> Seq<char>
    decreases p.len(),
{
    if p.len() == 0 {
        Seq::empty()
    } else {
        nodes_text(p.drop_last()) + node_text(p.last())
    }
}

/// The text of a plan: a block per node, then the cost and the final state.
pub open spec fn plan_text(p: Seq<Node>, cost: nat) -> Seq<char> {
    nodes_text(p) + "\t\t= FINAL STATE (COST: "@ + decimal(cost) + ")\n"@ + if p.len() == 0 {
        Seq::empty()
    } else {
        entries_text(node_state(p.last()).entries())
    }
}

fn append_digit(out: &mut String, d: u64)
    requires
        d < 10,
    ensures
        final(out)@ == old(out)@ + digit_text(d as nat),
{
    if d == 0 {
        out.append("0");
    } else if d == 1 {
        out.append("1");
    } else if d == 2 {
        out.append("2");
    } else if d == 3 {
        out.append("3");
    } else if d == 4 {
        out.append("4");
    } else if d == 5 {
        out.append("5");
    } else if d == 6 {
        out.append("6");
    } else if d == 7 {
        out.append("7");
    } else if d == 8 {
        out.append("8");
    } else {
        out.append("9");
    }
}

fn append_decimal(out: &mut String, n: u64)
    ensures
        final(out)@ == old(out)@ + decimal(n as nat),
    decreases n,
{
    if n >= 10 {
        append_decimal(out, n / 10);
        append_digit(out, n % 10);
        assert(final(out)@ =~= old(out)@ + decimal(n as nat));
    } else {
        append_digit(out, n);
    }
}

fn append_datum(out: &mut String, d: Datum)
    ensures
        final(out)@ == old(out)@ + datum_text(d),
{
    match d {
        Datum::Bool(b) => {
            if b {
                out.append("true");
            } else {
                out.append("false");
            }
        },
        Datum::I64(x) => {
            if x < 0 {
                out.append("-");
                let m: u64 = (-(x as i128)) as u64;
                append_decimal(out, m);
                assert(final(out)@ =~= old(out)@ + datum_text(d));
            } else {
                append_decimal(out, x as u64);
            }
        },
        Datum::Enum(e) => {
            append_decimal(out, e);
        },
    }
}

fn append_mutator(out: &mut String, m: &Mutator)
    ensures
        final(out)@ == old(out)@ + mutator_line(*m),
{
    let ghost start = out@;
    out.append("\t\t");
    match m {
        Mutator::Assign(k, v) => {
            out.append(k.as_str());
            out.append(" = ");
            append_datum(out, *v);
        },
        Mutator::Increment(k, v) => {
            out.append(k.as_str());
            out.append(" + ");
            append_datum(out, *v);
        },
        Mutator::Decrement(k, v) => {
            out.append(k.as_str());
            out.append(" - ");
            append_datum(out, *v);
        },
    }
    out.append("\n");
    assert(out@ =~= start + mutator_line(*m));
}

fn append_mutators(out: &mut String, ms: &Vec<Mutator>)
    ensures
        final(out)@ == old(out)@ + mutators_text(ms@),
{
    let ghost start = out@;
    let mut i: usize = 0;
    while i < ms.len()
        invariant
            i <= ms@.len(),
            out@ == start + mutators_text(ms@.subrange(0, i as int)),
        decreases ms@.len() - i,
    {
        append_mutator(out, &ms[i]);
        assert(ms@.subrange(0, i + 1).drop_last() =~= ms@.subrange(0, i as int));
        assert(out@ =~= start + mutators_text(ms@.subrange(0, i + 1)));
        i = i + 1;
    }
    assert(ms@.subrange(0, i as int) =~= ms@);
}

fn append_entries(out: &mut String, state: &LocalState)
    ensures
        final(out)@ == old(out)@ + entries_text(state.entries()),
{
    let ghost start = out@;
    let ghost es = state.entries();
    let n = state.len();
    let mut i: usize = 0;
    while i < n
        invariant
            n == es.len(),
            es == state.entries(),
            i <= n,
            out@ == start + entries_text(es.subrange(0, i as int)),
        decreases n - i,
    {
        let (k, v) = state.entry_at(i);
        out.append("\t\t");
        out.append(k);
        out.append(" = ");
        append_datum(out, v);
        out.append("\n");
        assert(es.subrange(0, i + 1).drop_last() =~= es.subrange(0, i as int));
        assert(out@ =~= start + entries_text(es.subrange(0, i + 1)));
        i = i + 1;
    }
    assert(es.subrange(0, i as int) =~= es);
}

/// The lines for a list of mutators: `key = v`, `key + v` or `key - v`,
/// each indented by two tabs.
pub fn format_mutators(mutators: Vec<Mutator>) -> (r: String)
    ensures
        r@ == mutators_text(mutators@),
{
    let mut out = String::new();
    append_mutators(&mut out, &mutators);
    assert(out@ =~= mutators_text(mutators@));
    out
}

/// A human-readable text of a plan: the start state, each action with its
/// mutators, then the cost and the final state.
pub fn format_plan(plan: (Vec<Node>, usize)) -> (r: String)
    ensures
        r@ == plan_text(plan.0@, plan.1 as nat),
{
    let (nodes, cost) = plan;
    let mut out = String::new();
    let mut i: usize = 0;
    while i < nodes.len()
        invariant
            i <= nodes@.len(),
            out@ == nodes_text(nodes@.subrange(0, i as int)),
        decreases nodes@.len() - i,
    {
        let ghost before = out@;
        match &nodes[i] {
            Node::Effect(effect) => {
                out.append("\t\t= DO ACTION ");
                let quoted = debug_quoted(effect.action.as_str());
                out.append(quoted.as_str());
                out.append("\n");
                out.append("\t\tMUTATES:\n");
                append_mutators(&mut out, &effect.mutators);
            },
            Node::State(s) => {
                out.append("\t\t= INITIAL STATE\n");
                append_entries(&mut out, s);
            },
        }
        out.append("\n\t\t---\n");
        assert(nodes@.subrange(0, i + 1).drop_last() =~= nodes@.subrange(0, i as int));
        assert(out@ =~= before + node_text(nodes@[i as int]));
        i = i + 1;
    }
    assert(nodes@.subrange(0, i as int) =~= nodes@);
    let ghost body = out@;
    out.append("\t\t= FINAL STATE (COST: ");
    append_decimal(&mut out, cost as u64);
    out.append(")\n");
    if nodes.len() > 0 {
        append_entries(&mut out, nodes[nodes.len() - 1].state());
    }
    assert(out@ =~= plan_text(nodes@, cost as nat));
    out
}

} // verus!
