//! The task graph in Graphviz DOT: one box per task, coloured by state, an
//! arrow from each prerequisite to its dependent, and a legend.
use vstd::prelude::*;
use crate::coordination::graph::TaskGraph;
use crate::domain::{TaskState, state_name, state_name_str};
use crate::text::{chars_of, push_char, push_str, strings_view};

verus! {

/// What the DOT text shows.
#[derive(Debug, Clone, Copy)]
pub struct DotOptions {
    /// The state under each task's id.
    pub show_state: bool,
    /// The artifacts an edge requires.
    pub show_artifacts: bool,
    /// A red border round tasks whose prerequisites are not met.
    pub highlight_blocked: bool,
    /// A left-to-right layout.
    pub horizontal: bool,
    /// Timestamps.
    pub show_timestamps: bool,
}

/// The default options: states shown, blocked tasks highlighted, laid out
/// left to right.
pub open spec fn default_options() -> DotOptions {
    DotOptions { show_state: true, show_artifacts: true, highlight_blocked: true, horizontal: true, show_timestamps: false }
}

impl Default for DotOptions {
    fn default() -> (r: Self)
        ensures
            r == default_options(),
    {
        DotOptions { show_state: true, show_artifacts: true, highlight_blocked: true, horizontal: true, show_timestamps: false }
    }
}

/// What a character becomes in a quoted DOT string.
pub open spec fn escape_char(c: char) -> Seq<char> {
    if c == '\\' {
        seq!['\\', '\\']
    } else if c == '"' {
        seq!['\\', '"']
    } else if c == '\n' {
        seq!['\\', 'n']
    } else {
        seq![c]
    }
}

/// A string escaped for a quoted DOT string: backslash, double quote and
/// newline get a backslash.
pub open spec fn escape_text(s: Seq<char>) -> Seq<char>
    decreases s.len(),
{
    if s.len() == 0 {
        Seq::empty()
    } else {
        escape_text(s.drop_last()) + escape_char(s.last())
    }
}

/// The fill and font colours of a state.
pub open spec fn color_of(s: TaskState) -> (Seq<char>, Seq<char>) {
    match s {
        TaskState::Submitted => ("lightblue"@, "black"@),
        TaskState::Working => ("yellow"@, "black"@),
        TaskState::InputRequired => ("orange"@, "black"@),
        TaskState::Completed => ("lightgreen"@, "black"@),
        TaskState::Failed => ("red"@, "white"@),
        TaskState::Canceled => ("gray"@, "white"@),
        TaskState::Rejected => ("darkred"@, "white"@),
        TaskState::AuthRequired => ("purple"@, "white"@),
        TaskState::Unknown => ("white"@, "black"@),
    }
}

/// The opening lines.
pub open spec fn header_text(o: DotOptions) -> Seq<char> {
    "digraph TaskGraph {\n"@ + (if o.horizontal { "  rankdir=LR;\n"@ } else { Seq::empty() }) + "  node [shape=box];\n"@ + "\n"@
}

/// The label of a task's box.
pub open spec fn label_text(id: Seq<char>, s: TaskState, o: DotOptions) -> Seq<char> {
    escape_text(id) + (if o.show_state { seq!['\\', 'n'] + state_name(s) } else { Seq::empty() })
}

/// The attributes of a task's box after its label.
pub open spec fn attrs_text(s: TaskState, blocked: bool) -> Seq<char> {
    "\" fillcolor="@ + color_of(s).0 + " fontcolor="@ + color_of(s).1 + " style=filled color="@
        + (if blocked { "red"@ } else { "black"@ }) + " penwidth="@ + (if blocked { "2.0"@ } else { "1.0"@ }) + "];\n"@
}

/// The line of a task's box.
pub open spec fn node_text(id: Seq<char>, s: TaskState, blocked: bool, o: DotOptions) -> Seq<char> {
    "  \""@ + escape_text(id) + "\" [label=\""@ + label_text(id, s, o) + attrs_text(s, blocked)
}

/// The boxes of the first `n` tasks in id order.
pub open spec fn nodes_text(g: TaskGraph, o: DotOptions, n: int) -> Seq<char>
    decreases n,
{
    if n <= 0 {
        Seq::empty()
    } else {
        let id = g.task_order()[n - 1];
        nodes_text(g, o, n - 1) + node_text(id, g.tasks()[id].status.state, o.highlight_blocked && !g.prereqs_met(id), o)
    }
}

/// The line of an arrow from a prerequisite to its dependent.
pub open spec fn edge_text(pre: Seq<char>, dep: Seq<char>) -> Seq<char> {
    "  \""@ + escape_text(pre) + "\" -> \""@ + escape_text(dep) + "\";\n"@
}

/// The arrows into `dep` from the first `n` tasks in id order.
pub open spec fn arrows_into(g: TaskGraph, dep: Seq<char>, n: int) -> Seq<char>
    decreases n,
{
    if n <= 0 {
        Seq::empty()
    } else {
        let pre = g.task_order()[n - 1];
        arrows_into(g, dep, n - 1) + (if g.links().contains((dep, pre)) { edge_text(pre, dep) } else { Seq::empty() })
    }
}

/// The arrows into the first `n` tasks in id order.
pub open spec fn arrows_text(g: TaskGraph, n: int) -> Seq<char>
    decreases n,
{
    if n <= 0 {
        Seq::empty()
    } else {
        arrows_text(g, n - 1) + arrows_into(g, g.task_order()[n - 1], g.task_order().len() as int)
    }
}

/// The legend line of a state.
pub open spec fn legend_line(s: TaskState) -> Seq<char> {
    "    legend_"@ + state_name(s) + " [label=\""@ + state_name(s) + "\" fillcolor="@ + color_of(s).0 + " fontcolor="@
        + color_of(s).1 + "];\n"@
}

/// The opening of the legend.
pub open spec fn legend_head() -> Seq<char> {
    "\n"@ + "  // Legend\n"@ + "  subgraph cluster_legend {\n"@ + "    label=\"Task States\";\n"@ + "    style=filled;\n"@
        + "    color=lightgrey;\n"@ + "    node [shape=box style=filled];\n"@
}

/// The legend lines of the states shown in the legend.
pub open spec fn legend_states() -> Seq<char> {
    legend_line(TaskState::Submitted) + legend_line(TaskState::Working) + legend_line(TaskState::InputRequired)
        + legend_line(TaskState::Completed) + legend_line(TaskState::Failed) + legend_line(TaskState::Canceled)
}

/// The legend, from the blank line before it to its closing brace. The
/// states are listed only where the boxes show them.
pub open spec fn legend_text(o: DotOptions) -> Seq<char> {
    legend_head() + (if o.show_state { legend_states() } else { Seq::empty() }) + (if o.highlight_blocked {
        "    legend_blocked [label=\"Blocked (unmet prerequisites)\" color=red penwidth=2.0];\n"@
    } else {
        Seq::empty()
    }) + "  }\n"@
}

/// The whole DOT text of a graph.
pub open spec fn dot_text(g: TaskGraph, o: DotOptions) -> Seq<char> {
    let n = g.task_order().len() as int;
    header_text(o) + nodes_text(g, o, n) + "\n"@ + arrows_text(g, n) + legend_text(o) + "}\n"@
}

/// The fill and font colours of a state.
pub fn state_color(state: &TaskState) -> (r: (&'static str, &'static str))
    ensures
        r.0@ == color_of(*state).0,
        r.1@ == color_of(*state).1,
{
    match state {
        TaskState::Submitted => ("lightblue", "black"),
        TaskState::Working => ("yellow", "black"),
        TaskState::InputRequired => ("orange", "black"),
        TaskState::Completed => ("lightgreen", "black"),
        TaskState::Failed => ("red", "white"),
        TaskState::Canceled => ("gray", "white"),
        TaskState::Rejected => ("darkred", "white"),
        TaskState::AuthRequired => ("purple", "white"),
        TaskState::Unknown => ("white", "black"),
    }
}

/// A string escaped for a quoted DOT string.
pub fn escape_dot(s: &str) -> (r: String)
    ensures
        r@ == escape_text(s@),
{
    let cs = chars_of(s);
    let mut out = String::new();
    let mut i: usize = 0;
    while i < cs.len()
        invariant
            cs@ == s@,
            i <= cs@.len(),
            out@ == escape_text(cs@.take(i as int)),
        decreases cs@.len() - i,
    {
        let c = cs[i];
        let ghost before = out@;
        if c == '\\' {
            push_char(&mut out, '\\');
            push_char(&mut out, '\\');
        } else if c == '"' {
            push_char(&mut out, '\\');
            push_char(&mut out, '"');
        } else if c == '\n' {
            push_char(&mut out, '\\');
            push_char(&mut out, 'n');
        } else {
            push_char(&mut out, c);
        }
        proof {
            assert(cs@.take(i + 1).drop_last() =~= cs@.take(i as int));
            assert(cs@.take(i + 1).last() == c);
            assert(out@ =~= before + escape_char(c));
        }
        i = i + 1;
    }
    assert(cs@.take(i as int) =~= s@);
    out
}

fn push_header(out: &mut String, o: &DotOptions)
    ensures
        final(out)@ == old(out)@ + header_text(*o),
{
    let ghost start = out@;
    push_str(out, "digraph TaskGraph {\n");
    if o.horizontal {
        push_str(out, "  rankdir=LR;\n");
    }
    push_str(out, "  node [shape=box];\n");
    push_str(out, "\n");
    assert(out@ =~= start + header_text(*o));
}

#[verifier::spinoff_prover]
#[verifier::rlimit(40)]
fn push_node(out: &mut String, id: &str, s: TaskState, blocked: bool, o: &DotOptions)
    ensures
        final(out)@ == old(out)@ + node_text(id@, s, blocked, *o),
{
    let ghost start = out@;
    let esc = escape_dot(id);
    let (fill, font) = state_color(&s);
    push_str(out, "  \"");
    push_str(out, esc.as_str());
    push_str(out, "\" [label=\"");
    push_str(out, esc.as_str());
    if o.show_state {
        push_char(out, '\\');
        push_char(out, 'n');
        push_str(out, state_name_str(&s));
    }
    assert(out@ =~= start + "  \""@ + escape_text(id@) + "\" [label=\""@ + label_text(id@, s, *o));
    let ghost mid = out@;
    push_str(out, "\" fillcolor=");
    push_str(out, fill);
    push_str(out, " fontcolor=");
    push_str(out, font);
    push_str(out, " style=filled color=");
    push_str(out, if blocked { "red" } else { "black" });
    push_str(out, " penwidth=");
    push_str(out, if blocked { "2.0" } else { "1.0" });
    push_str(out, "];\n");
    assert(out@ =~= mid + attrs_text(s, blocked));
    assert(out@ =~= start + node_text(id@, s, blocked, *o));
}

fn push_edge(out: &mut String, pre: &str, dep: &str)
    ensures
        final(out)@ == old(out)@ + edge_text(pre@, dep@),
{
    let ghost start = out@;
    push_str(out, "  \"");
    push_str(out, escape_dot(pre).as_str());
    push_str(out, "\" -> \"");
    push_str(out, escape_dot(dep).as_str());
    push_str(out, "\";\n");
    assert(out@ =~= start + edge_text(pre@, dep@));
}

fn push_legend_line(out: &mut String, s: TaskState)
    ensures
        final(out)@ == old(out)@ + legend_line(s),
{
    let ghost start = out@;
    let (fill, font) = state_color(&s);
    push_str(out, "    legend_");
    push_str(out, state_name_str(&s));
    push_str(out, " [label=\"");
    push_str(out, state_name_str(&s));
    push_str(out, "\" fillcolor=");
    push_str(out, fill);
    push_str(out, " fontcolor=");
    push_str(out, font);
    push_str(out, "];\n");
    assert(out@ =~= start + legend_line(s));
}

fn push_legend(out: &mut String, o: &DotOptions)
    ensures
        final(out)@ == old(out)@ + legend_text(*o),
{
    let ghost start = out@;
    push_str(out, "\n");
    push_str(out, "  // Legend\n");
    push_str(out, "  subgraph cluster_legend {\n");
    push_str(out, "    label=\"Task States\";\n");
    push_str(out, "    style=filled;\n");
    push_str(out, "    color=lightgrey;\n");
    push_str(out, "    node [shape=box style=filled];\n");
    assert(out@ =~= start + legend_head());
    let ghost mid = out@;
    if o.show_state {
        push_legend_line(out, TaskState::Submitted);
        push_legend_line(out, TaskState::Working);
        push_legend_line(out, TaskState::InputRequired);
        push_legend_line(out, TaskState::Completed);
        push_legend_line(out, TaskState::Failed);
        push_legend_line(out, TaskState::Canceled);
        assert(out@ =~= mid + legend_states());
    } else {
        assert(out@ =~= mid + Seq::<char>::empty());
    }
    if o.highlight_blocked {
        push_str(out, "    legend_blocked [label=\"Blocked (unmet prerequisites)\" color=red penwidth=2.0];\n");
    }
    push_str(out, "  }\n");
    assert(out@ =~= start + legend_text(*o));
}

/// Export of a task graph as Graphviz DOT.
pub trait TaskGraphVisualizer {
    /// The value can be drawn.
    spec fn renderable(&self) -> bool;

    /// The DOT text with the default options.
    fn to_dot(&self) -> String
        requires
            self.renderable(),
    ;

    /// The DOT text with the given options.
    fn to_dot_with_options(&self, options: &DotOptions) -> String
        requires
            self.renderable(),
    ;
}

impl TaskGraphVisualizer for TaskGraph {
    open spec fn renderable(&self) -> bool {
        self.wf()
    }

    fn to_dot(&self) -> (r: String)
        ensures
            r@ == dot_text(*self, default_options()),
    {
        self.to_dot_with_options(&DotOptions::default())
    }

    fn to_dot_with_options(&self, options: &DotOptions) -> (r: String)
        ensures
            r@ == dot_text(*self, *options),
    {
        let mut dot = String::new();
        push_header(&mut dot, options);
        let ids = self.task_ids();
        let ghost ord = self.task_order();
        let n = ids.len();
        proof {
            crate::coordination::graph::lemma_task_order(*self);
            assert(n == ord.len());
        }
        let mut j: usize = 0;
        while j < n
            invariant
                self.wf(),
                strings_view(ids@) == ord,
                ord == self.task_order(),
                n == ord.len(),
                forall|x: Seq<char>| #[trigger] ord.contains(x) <==> self.tasks().contains_key(x),
                j <= n,
                dot@ == header_text(*options) + nodes_text(*self, *options, j as int),
            decreases n - j,
        {
            let id = ids[j].as_str();
            assert(id@ == ord[j as int]);
            assert(ord.contains(id@));
            let state = match self.get_task(id) {
                Some(t) => t.status.state,
                None => TaskState::Unknown,
            };
            let blocked = options.highlight_blocked && match self.prerequisites_met(id) {
                Ok(b) => !b,
                Err(_) => false,
            };
            let ghost before = dot@;
            push_node(&mut dot, id, state, blocked, options);
            assert(dot@ =~= header_text(*options) + nodes_text(*self, *options, j + 1));
            j = j + 1;
        }
        push_str(&mut dot, "\n");
        let ghost head = dot@;
        assert(head =~= header_text(*options) + nodes_text(*self, *options, n as int) + "\n"@);
        j = 0;
        while j < n
            invariant
                self.wf(),
                strings_view(ids@) == ord,
                ord == self.task_order(),
                n == ord.len(),
                j <= n,
                dot@ == head + arrows_text(*self, j as int),
            decreases n - j,
        {
            let dep = ids[j].as_str();
            assert(dep@ == ord[j as int]);
            let mut i: usize = 0;
            while i < n
                invariant
                    strings_view(ids@) == ord,
                    ord == self.task_order(),
                    n == ord.len(),
                    j < n,
                    i <= n,
                    dep@ == ord[j as int],
                    dot@ == head + arrows_text(*self, j as int) + arrows_into(*self, dep@, i as int),
                decreases n - i,
            {
                let pre = ids[i].as_str();
                assert(pre@ == ord[i as int]);
                if self.has_link(dep, pre) {
                    push_edge(&mut dot, pre, dep);
                }
                assert(dot@ =~= head + arrows_text(*self, j as int) + arrows_into(*self, dep@, i + 1));
                i = i + 1;
            }
            assert(dot@ =~= head + arrows_text(*self, j + 1));
            j = j + 1;
        }
        push_legend(&mut dot, options);
        push_str(&mut dot, "}\n");
        assert(dot@ =~= dot_text(*self, *options));
        dot
    }
}

} // verus!
