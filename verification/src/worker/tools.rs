use vstd::prelude::*;
use vstd::string::*;

use crate::text::{str_eq, views};

verus! {

/// A tool that the agent can call by name.
pub trait Tool {
    /// The name the tool goes by.
    spec fn tool_name(&self) -> Seq<char>;

    /// What the tool says it does.
    spec fn tool_description(&self) -> Seq<char>;

    /// Whether `output` is an answer the tool may give to `input`.
    spec fn answers(&self, input: Seq<char>, output: Seq<char>) -> bool;

    fn name(&self) -> (r: String)
        ensures
            r@ == self.tool_name(),
    ;

    fn description(&self) -> (r: String)
        ensures
            r@ == self.tool_description(),
    ;

    fn execute(&self, input: &str) -> (r: String)
        ensures
            self.answers(input@, r@),
    ;
}

/// Calls `meval::eval_str` on `input` and writes the value (with `f64`'s `Display`), or the
/// error, out as text. Nothing is claimed of the outcome: meval computes with `f64`
/// functions such as `powf` and `sin`, whose precision std leaves to the platform, so the
/// text is not a function of `input` alone.
#[verifier::external_body]
fn eval_expression(input: &str) -> (r: Result<String, String>) {
    match meval::eval_str(input) {
        Ok(v) => Ok(v.to_string()),
        Err(e) => Err(e.to_string()),
    }
}

/// The calculator's text for the outcome of an evaluation: the value, or "Error evaluating
/// expression: " and the error.
pub open spec fn calculator_text_spec(outcome: Result<Seq<char>, Seq<char>>) -> Seq<char> {
    match outcome {
        Ok(v) => v,
        Err(e) => "Error evaluating expression: "@ + e,
    }
}

/// The calculator's text for the outcome of an evaluation (see `calculator_text_spec`).
pub fn calculator_text(outcome: Result<String, String>) -> (r: String)
    ensures
        r@ == calculator_text_spec(
            match outcome {
                Ok(v) => Ok::<Seq<char>, Seq<char>>(v@),
                Err(e) => Err::<Seq<char>, Seq<char>>(e@),
            },
        ),
{
    match outcome {
        Ok(v) => v,
        Err(e) => {
            let mut s = "Error evaluating expression: ".to_string();
            s.append(e.as_str());
            s
        },
    }
}

/// Evaluates mathematical expressions.
pub struct CalculatorTool;

impl Tool for CalculatorTool {
    open spec fn tool_name(&self) -> Seq<char> {
        "calculate"@
    }

    open spec fn tool_description(&self) -> Seq<char> {
        "evaluates a mathematical expression (supports +, -, *, /, parentheses, functions)"@
    }

    /// Every answer is the text of some outcome of an evaluation (see `calculator_text_spec`):
    /// a value, or "Error evaluating expression: " and a message. Which outcome comes out is
    /// left to the evaluator (see `eval_expression`).
    open spec fn answers(&self, input: Seq<char>, output: Seq<char>) -> bool {
        exists|outcome: Result<Seq<char>, Seq<char>>| output == #[trigger] calculator_text_spec(outcome)
    }

    fn name(&self) -> (r: String)
        ensures
            r@ == "calculate"@,
    {
        "calculate".to_string()
    }

    fn description(&self) -> (r: String) {
        "evaluates a mathematical expression (supports +, -, *, /, parentheses, functions)".to_string()
    }

    fn execute(&self, input: &str) -> (r: String) {
        calculator_text(eval_expression(input))
    }
}

/// Looks tools up by name and lists them.
pub trait ToolRegistry {
    /// The registry is in a consistent state.
    spec fn registry_wf(&self) -> bool;

    fn execute(&self, name: &str, input: &str) -> Option<String>
        requires
            self.registry_wf(),
    ;

    fn descriptions(&self) -> String
        requires
            self.registry_wf(),
    ;
}

/// Appends `t` to `v`, keeping what was there.
fn push_entry<T>(t: T, v: &mut Vec<T>)
    ensures
        final(v)@ == old(v)@.push(t),
{
    v.push(t);
}

/// Puts `t` at position `i` of `v`, keeping the other entries.
fn set_entry<T>(t: T, v: &mut Vec<T>, i: usize)
    requires
        i < old(v)@.len(),
    ensures
        final(v)@ == old(v)@.update(i as int, t),
{
    v.set(i, t);
}

/// The listing of tools: "- name: description" for each name and the description at the
/// same position, joined by line feeds.
pub open spec fn tool_listing(names: Seq<Seq<char>>, descriptions: Seq<Seq<char>>) -> Seq<char>
    decreases names.len(),
{
    if names.len() == 0 {
        Seq::empty()
    } else {
        let line = "- "@ + names.last() + ": "@ + descriptions.last();
        if names.len() == 1 {
            line
        } else {
            tool_listing(names.drop_last(), descriptions.drop_last()) + "\n"@ + line
        }
    }
}

/// The names registered after registering tools named `ns`, in turn, on top of `start`: a
/// name not yet registered is added at the end; one already registered stays where it is.
pub open spec fn registered_names(start: Seq<Seq<char>>, ns: Seq<Seq<char>>) -> Seq<Seq<char>>
    decreases ns.len(),
{
    if ns.len() == 0 {
        start
    } else {
        let prev = registered_names(start, ns.drop_last());
        if prev.contains(ns.last()) {
            prev
        } else {
            prev.push(ns.last())
        }
    }
}

/// The names the tools go by, in order.
pub open spec fn tool_names(tools: Seq<Box<dyn Tool>>) -> Seq<Seq<char>> {
    tools.map_values(|t: Box<dyn Tool>| t.tool_name())
}

/// The last position of `n` in `ns`, or -1.
pub open spec fn last_index(ns: Seq<Seq<char>>, n: Seq<char>) -> int
    decreases ns.len(),
{
    if ns.len() == 0 {
        -1
    } else if ns.last() == n {
        ns.len() - 1
    } else {
        last_index(ns.drop_last(), n)
    }
}

proof fn lemma_last_index(ns: Seq<Seq<char>>, n: Seq<char>)
    ensures
        -1 <= last_index(ns, n) < ns.len(),
        ns.contains(n) <==> last_index(ns, n) >= 0,
        last_index(ns, n) >= 0 ==> ns[last_index(ns, n)] == n,
    decreases ns.len(),
{
    if ns.len() > 0 {
        lemma_last_index(ns.drop_last(), n);
        if ns.last() != n {
            if ns.contains(n) {
                let k = choose|k: int| 0 <= k < ns.len() && ns[k] == n;
                assert(k < ns.len() - 1);
                assert(ns.drop_last()[k] == n);
            }
            if ns.drop_last().contains(n) {
                let k = choose|k: int| 0 <= k < ns.drop_last().len() && ns.drop_last()[k] == n;
                assert(ns[k] == n);
            }
        } else {
            assert(ns[ns.len() - 1] == n);
        }
    }
}

proof fn lemma_registered_contains(ns: Seq<Seq<char>>, n: Seq<char>)
    ensures
        registered_names(Seq::empty(), ns).contains(n) <==> ns.contains(n),
    decreases ns.len(),
{
    if ns.len() > 0 {
        lemma_registered_contains(ns.drop_last(), n);
        let prev = registered_names(Seq::empty(), ns.drop_last());
        if ns.drop_last().contains(n) {
            let k = choose|k: int| 0 <= k < ns.drop_last().len() && ns.drop_last()[k] == n;
            assert(ns[k] == n);
        }
        if ns.contains(n) && n != ns.last() {
            let k = choose|k: int| 0 <= k < ns.len() && ns[k] == n;
            assert(ns.drop_last()[k] == n);
        }
        if !prev.contains(ns.last()) {
            assert(prev.push(ns.last()).contains(n) <==> (prev.contains(n) || n == ns.last())) by {
                if prev.push(ns.last()).contains(n) {
                    let k = choose|k: int| 0 <= k < prev.len() + 1 && prev.push(ns.last())[k] == n;
                    if k < prev.len() {
                        assert(prev[k] == n);
                    }
                }
                if prev.contains(n) {
                    let k = choose|k: int| 0 <= k < prev.len() && prev[k] == n;
                    assert(prev.push(ns.last())[k] == n);
                }
                if n == ns.last() {
                    assert(prev.push(ns.last())[prev.len() as int] == n);
                }
            }
        }
        assert(ns.len() > 0 ==> ns[ns.len() - 1] == ns.last());
    }
}

/// Tools kept in memory, each under the name it gave when it was registered: `names` holds
/// each name once, and `slots[k]` is the position in `tools` of the tool registered under
/// `names[k]`.
pub struct InMemoryToolRegistry {
    names: Vec<String>,
    slots: Vec<usize>,
    tools: Vec<Box<dyn Tool>>,
}

impl InMemoryToolRegistry {
    /// The names of the registered tools, in the order in which they were first registered.
    pub closed spec fn names(&self) -> Seq<Seq<char>> {
        views(self.names@)
    }

    /// Each name is registered once, and has a tool of its own.
    pub closed spec fn wf(&self) -> bool {
        &&& self.names().no_duplicates()
        &&& self.slots@.len() == self.names@.len()
        &&& self.slots@.no_duplicates()
        &&& forall|k: int| 0 <= k < self.slots@.len() ==> #[trigger] self.slots@[k] < self.tools@.len()
    }

    /// The position in `tools` of the tool registered under the `k`-th name.
    closed spec fn slot(&self, k: int) -> int {
        self.slots@[k] as int
    }

    /// The tool registered under `name` answers `input` with `output`.
    pub closed spec fn answers_for(&self, name: Seq<char>, input: Seq<char>, output: Seq<char>) -> bool {
        exists|k: int|
            #![trigger self.names()[k]]
            0 <= k < self.names().len() && self.names()[k] == name && self.tools@[self.slot(k)].answers(input, output)
    }

    /// The descriptions of the registered tools, in the order of their names.
    pub closed spec fn tool_descriptions(&self) -> Seq<Seq<char>> {
        Seq::new(self.names().len(), |k: int| self.tools@[self.slot(k)].tool_description())
    }

    /// The listing of the registered tools (see `tool_listing`).
    pub open spec fn listing(&self) -> Seq<char> {
        tool_listing(self.names(), self.tool_descriptions())
    }

    /// An empty registry.
    pub fn new() -> (r: Self)
        ensures
            r.wf(),
            r.names() == Seq::<Seq<char>>::empty(),
            r.tool_descriptions() == Seq::<Seq<char>>::empty(),
    {
        let r = InMemoryToolRegistry { names: Vec::new(), slots: Vec::new(), tools: Vec::new() };
        assert(r.names() =~= Seq::<Seq<char>>::empty());
        assert(r.tool_descriptions() =~= Seq::<Seq<char>>::empty());
        r
    }

    /// The position of `name` among the registered names.
    fn position(&self, name: &str) -> (r: Option<usize>)
        requires
            self.wf(),
        ensures
            match r {
                Some(i) => i < self.names().len() && self.names()[i as int] == name@,
                None => !self.names().contains(name@),
            },
    {
        let mut i: usize = 0;
        while i < self.names.len()
            invariant
                i <= self.names@.len(),
                forall|k: int| 0 <= k < i ==> self.names()[k] != name@,
            decreases self.names@.len() - i,
        {
            if str_eq(self.names[i].as_str(), name) {
                return Some(i);
            }
            i = i + 1;
        }
        None
    }

    /// Registers `tool` under its name; a tool already registered under that name is replaced.
    /// Afterwards that name is answered by `tool`, and lists its description; the other names
    /// keep their tools.
    pub fn register(&mut self, tool: Box<dyn Tool>)
        requires
            old(self).wf(),
        ensures
            final(self).wf(),
            final(self).names() == registered_names(old(self).names(), seq![tool.tool_name()]),
            forall|input: Seq<char>, output: Seq<char>|
                #[trigger] final(self).answers_for(tool.tool_name(), input, output) <==> tool.answers(input, output),
            forall|m: Seq<char>, input: Seq<char>, output: Seq<char>|
                m != tool.tool_name() ==> (#[trigger] final(self).answers_for(m, input, output)
                    <==> old(self).answers_for(m, input, output)),
            final(self).tool_descriptions().len() == final(self).names().len(),
            forall|k: int|
                0 <= k < final(self).names().len() ==> #[trigger] final(self).tool_descriptions()[k] == if final(self).names()[k] == tool.tool_name() {
                    tool.tool_description()
                } else {
                    old(self).tool_descriptions()[k]
                },
    {
        let name = tool.name();
        proof {
            reveal_with_fuel(registered_names, 2);
            assert(seq![name@].drop_last() == Seq::<Seq<char>>::empty());
        }
        let ghost nm = name@;
        match self.position(name.as_str()) {
            Some(k) => {
                let slot = self.slots[k];
                set_entry(tool, &mut self.tools, slot);
                proof {
                    assert(old(self).names().contains(nm));
                    assert(self.names() == old(self).names());
                    assert forall|j: int| 0 <= j < self.names().len() implies (self.names()[j] == nm ==> #[trigger] self.tools@[self.slot(j)] == tool)
                        && (self.names()[j] != nm ==> self.tools@[self.slot(j)] == old(self).tools@[old(self).slot(j)]) by {
                        if j != k {
                            assert(self.slots@[j] != self.slots@[k as int]);
                            assert(self.names()[j] != self.names()[k as int]);
                        }
                    }
                }
            },
            None => {
                let ghost before = self.names();
                let ghost old_slots = self.slots@;
                let n = self.tools.len();
                self.names.push(name);
                push_entry(tool, &mut self.tools);
                self.slots.push(n);
                proof {
                    assert(self.slots@ == old_slots.push(n));
                    assert(self.names() =~= before.push(nm));
                    assert forall|a: int, b: int| 0 <= a < self.names().len() && 0 <= b < self.names().len() && a != b
                        implies self.names()[a] != self.names()[b] by {
                        if a == before.len() {
                            assert(before.contains(self.names()[b]));
                        } else if b == before.len() {
                            assert(before.contains(self.names()[a]));
                        }
                    }
                    assert forall|a: int, b: int| 0 <= a < self.slots@.len() && 0 <= b < self.slots@.len() && a != b
                        implies self.slots@[a] != self.slots@[b] by {
                        if a < old_slots.len() && b < old_slots.len() {
                            assert(old_slots[a] != old_slots[b]);
                        } else if a < old_slots.len() {
                            assert(old_slots[a] < n);
                        } else if b < old_slots.len() {
                            assert(old_slots[b] < n);
                        }
                    }
                    assert forall|a: int| 0 <= a < self.slots@.len() implies #[trigger] self.slots@[a] < self.tools@.len() by {
                        if a < old_slots.len() {
                            assert(old_slots[a] < n);
                        }
                    }
                    assert(!before.contains(nm));
                    assert forall|j: int| 0 <= j < self.names().len() implies (self.names()[j] == nm ==> #[trigger] self.tools@[self.slot(j)] == tool)
                        && (self.names()[j] != nm ==> self.tools@[self.slot(j)] == old(self).tools@[old(self).slot(j)]) by {
                        if j < before.len() {
                            assert(old_slots[j] < n);
                            assert(self.names()[j] == before[j]);
                        }
                    }
                }
            },
        }
        proof {
            let nm = tool.tool_name();
            reveal_with_fuel(registered_names, 2);
            assert(seq![nm].drop_last() == Seq::<Seq<char>>::empty());
            assert(self.names().contains(nm)) by {
                if old(self).names().contains(nm) {
                    let j = choose|j: int| 0 <= j < old(self).names().len() && old(self).names()[j] == nm;
                    assert(self.names()[j] == nm);
                } else {
                    assert(self.names()[old(self).names().len() as int] == nm);
                }
            }
            assert forall|input: Seq<char>, output: Seq<char>|
                #[trigger] self.answers_for(nm, input, output) <==> tool.answers(input, output) by {
                let k = choose|k: int| 0 <= k < self.names().len() && self.names()[k] == nm;
                assert(self.tools@[self.slot(k)] == tool);
                if self.answers_for(nm, input, output) {
                    let a = choose|a: int|
                        #![trigger self.names()[a]]
                        0 <= a < self.names().len() && self.names()[a] == nm && self.tools@[self.slot(a)].answers(
                            input,
                            output,
                        );
                    assert(self.tools@[self.slot(a)] == tool);
                }
            }
            assert forall|m: Seq<char>, input: Seq<char>, output: Seq<char>|
                m != nm implies (#[trigger] self.answers_for(m, input, output) <==> old(self).answers_for(
                    m,
                    input,
                    output,
                )) by {
                if self.answers_for(m, input, output) {
                    let a = choose|a: int|
                        #![trigger self.names()[a]]
                        0 <= a < self.names().len() && self.names()[a] == m && self.tools@[self.slot(a)].answers(
                            input,
                            output,
                        );
                    assert(self.tools@[self.slot(a)] == old(self).tools@[old(self).slot(a)]);
                    if old(self).names().contains(nm) {
                        assert(self.names() == old(self).names());
                    } else {
                        assert(self.names() == old(self).names().push(nm));
                        assert(a < old(self).names().len());
                    }
                    assert(old(self).names()[a] == m);
                }
                if old(self).answers_for(m, input, output) {
                    let a = choose|a: int|
                        #![trigger old(self).names()[a]]
                        0 <= a < old(self).names().len() && old(self).names()[a] == m
                            && old(self).tools@[old(self).slot(a)].answers(input, output);
                    if old(self).names().contains(nm) {
                        assert(self.names() == old(self).names());
                    } else {
                        assert(self.names() == old(self).names().push(nm));
                    }
                    assert(self.names()[a] == m);
                    assert(self.tools@[self.slot(a)] == old(self).tools@[old(self).slot(a)]);
                }
            }
        }
    }

    /// A registry holding `tools`, each registered in turn under the name it gives: its names
    /// are those names, each once, in the order in which they first came, and each name is
    /// answered by the last of the tools that go by it.
    pub fn from_tools(tools: Vec<Box<dyn Tool>>) -> (r: Self)
        ensures
            r.wf(),
            r.names() == registered_names(Seq::empty(), tool_names(tools@)),
            forall|n: Seq<char>, input: Seq<char>, output: Seq<char>|
                tool_names(tools@).contains(n) ==> (#[trigger] r.answers_for(n, input, output)
                    <==> tools@[last_index(tool_names(tools@), n)].answers(input, output)),
            r.tool_descriptions().len() == r.names().len(),
            forall|k: int|
                0 <= k < r.names().len() ==> #[trigger] r.tool_descriptions()[k] == tools@[last_index(
                    tool_names(tools@),
                    r.names()[k],
                )].tool_description(),
    {
        let ghost ts = tools@;
        let ghost all = tool_names(tools@);
        let mut names: Vec<String> = Vec::new();
        let mut slots: Vec<usize> = Vec::new();
        let mut j: usize = 0;
        while j < tools.len()
            invariant
                tools@ == ts,
                all == tool_names(ts),
                j <= ts.len(),
                views(names@) == registered_names(Seq::empty(), all.take(j as int)),
                views(names@).no_duplicates(),
                slots@.len() == names@.len(),
                forall|k: int| 0 <= k < slots@.len() ==> #[trigger] slots@[k] == last_index(all.take(j as int), views(names@)[k]),
                forall|k: int| 0 <= k < slots@.len() ==> 0 <= #[trigger] slots@[k] < j,
            decreases ts.len() - j,
        {
            let name = tools[j].name();
            let ghost nm = name@;
            let ghost pre = all.take(j as int);
            let ghost post = all.take(j + 1);
            proof {
                assert(nm == all[j as int]);
                assert(post.drop_last() == pre);
                assert(post.last() == nm);
                reveal_with_fuel(registered_names, 2);
            }
            let mut k: usize = 0;
            while k < names.len() && !str_eq(names[k].as_str(), name.as_str())
                invariant
                    k <= names@.len(),
                    nm == name@,
                    forall|a: int| 0 <= a < k ==> views(names@)[a] != nm,
                decreases names@.len() - k,
            {
                assert(views(names@)[k as int] == names@[k as int]@);
                k = k + 1;
            }
            let found: Option<usize> = if k < names.len() {
                assert(views(names@)[k as int] == names@[k as int]@);
                Some(k)
            } else {
                None
            };
            let ghost old_names = views(names@);
            let ghost old_slots = slots@;
            match found {
                Some(k) => {
                    assert(k < names@.len());
                    assert(old_names[k as int] == nm);
                    assert(old_names.contains(nm));
                    slots.set(k, j);
                    proof {
                        assert forall|a: int| 0 <= a < slots@.len() implies #[trigger] slots@[a] == last_index(post, views(names@)[a]) by {
                            if a != k {
                                assert(old_names[a] != nm);
                            }
                        }
                    }
                },
                None => {
                    proof {
                        assert(!old_names.contains(nm));
                    }
                    names.push(name);
                    slots.push(j);
                    proof {
                        assert(views(names@) =~= old_names.push(nm));
                        assert forall|a: int, b: int| 0 <= a < views(names@).len() && 0 <= b < views(names@).len() && a != b
                            implies views(names@)[a] != views(names@)[b] by {
                            if a == old_names.len() {
                                assert(old_names.contains(views(names@)[b]));
                            } else if b == old_names.len() {
                                assert(old_names.contains(views(names@)[a]));
                            }
                        }
                        assert forall|a: int| 0 <= a < slots@.len() implies #[trigger] slots@[a] == last_index(post, views(names@)[a]) by {
                            if a < old_slots.len() {
                                assert(old_names[a] != nm);
                                assert(views(names@)[a] == old_names[a]);
                            }
                        }
                    }
                },
            }
            j = j + 1;
        }
        proof {
            assert(all.take(ts.len() as int) == all);
            assert forall|a: int, b: int| 0 <= a < slots@.len() && 0 <= b < slots@.len() && a != b
                implies slots@[a] != slots@[b] by {
                lemma_last_index(all, views(names@)[a]);
                lemma_last_index(all, views(names@)[b]);
                if slots@[a] == slots@[b] {
                    assert(views(names@)[a] == views(names@)[b]);
                }
            }
        }
        let r = InMemoryToolRegistry { names, slots, tools };
        proof {
            assert(r.tools@ == ts);
            assert(r.names() == registered_names(Seq::empty(), all));
            assert forall|n: Seq<char>, input: Seq<char>, output: Seq<char>|
                all.contains(n) implies (#[trigger] r.answers_for(n, input, output)
                    <==> ts[last_index(all, n)].answers(input, output)) by {
                lemma_registered_contains(all, n);
                assert(r.names().contains(n));
                let k = choose|k: int| 0 <= k < r.names().len() && r.names()[k] == n;
                assert(r.slots@[k] == last_index(all, n));
                if r.answers_for(n, input, output) {
                    let a = choose|a: int|
                        #![trigger r.names()[a]]
                        0 <= a < r.names().len() && r.names()[a] == n && r.tools@[r.slots@[a] as int].answers(input, output);
                    assert(a == k);
                }
                if ts[last_index(all, n)].answers(input, output) {
                    assert(r.names()[k] == n);
                }
            }
            assert forall|k: int| 0 <= k < r.names().len() implies #[trigger] r.tool_descriptions()[k]
                == ts[last_index(all, r.names()[k])].tool_description() by {
                assert(r.slot(k) == last_index(all, r.names()[k]));
            }
        }
        r
    }

    /// The number of registered tools.
    pub fn tool_count(&self) -> (n: usize)
        requires
            self.wf(),
        ensures
            n == self.names().len(),
    {
        self.names.len()
    }
}

impl Default for InMemoryToolRegistry {
    /// An empty registry.
    fn default() -> (r: Self)
        ensures
            r.wf(),
            r.names() == Seq::<Seq<char>>::empty(),
            r.tool_descriptions() == Seq::<Seq<char>>::empty(),
    {
        Self::new()
    }
}

impl ToolRegistry for InMemoryToolRegistry {
    open spec fn registry_wf(&self) -> bool {
        self.wf()
    }

    fn execute(&self, name: &str, input: &str) -> (r: Option<String>)
        ensures
            r is Some <==> self.names().contains(name@),
            r matches Some(out) ==> self.answers_for(name@, input@, out@),
    {
        let mut i: usize = 0;
        while i < self.names.len()
            invariant
                self.wf(),
                i <= self.names@.len(),
                forall|k: int| 0 <= k < i ==> self.names()[k] != name@,
            decreases self.names@.len() - i,
        {
            if str_eq(self.names[i].as_str(), name) {
                assert(self.names()[i as int] == name@);
                assert(self.names().contains(name@));
                let slot = self.slots[i];
                let out = self.tools[slot].execute(input);
                assert(self.tools@[slot as int].answers(input@, out@));
                return Some(out);
            }
            i = i + 1;
        }
        None
    }

    fn descriptions(&self) -> (r: String)
        ensures
            r@ == self.listing(),
            r@.len() == 0 <==> self.names().len() == 0,
    {
        let ghost ds = self.tool_descriptions();
        let mut out = String::new();
        let mut i: usize = 0;
        while i < self.names.len()
            invariant
                self.wf(),
                ds == self.tool_descriptions(),
                i <= self.names@.len(),
                out@ == tool_listing(self.names().take(i as int), ds.take(i as int)),
                out@.len() == 0 <==> i == 0,
            decreases self.names@.len() - i,
        {
            if i > 0 {
                out.append("\n");
            }
            proof {
                reveal_strlit("- ");
            }
            out.append("- ");
            out.append(self.names[i].as_str());
            out.append(": ");
            let slot = self.slots[i];
            let d = self.tools[slot].description();
            out.append(d.as_str());
            proof {
                let ns = self.names().take(i + 1);
                assert(ns.drop_last() == self.names().take(i as int));
                assert(ns.last() == self.names[i as int]@);
                assert(ds.take(i + 1).drop_last() == ds.take(i as int));
                assert(ds.take(i + 1).last() == d@);
            }
            i = i + 1;
        }
        assert(self.names().take(self.names@.len() as int) == self.names());
        assert(ds.take(self.names@.len() as int) == ds);
        out
    }
}

} // verus!
