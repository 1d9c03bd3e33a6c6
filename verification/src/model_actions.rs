use crate::command::Command;

use crate::identifier::{is_digit_char, is_identifier_char, name_error, Identifier};
use crate::model::Model;
use crate::module::Module;
use crate::spans::Span;
use crate::text::{decimal, decimal_text};
use vstd::prelude::*;
use vstd::string::StringExecFns;

verus! {

/// The prefix of the names given to unnamed actions.
pub open spec fn unnamed_action_prefix() -> Seq<char> {
    seq!['u', 'n', 'n', 'a', 'm', 'e', 'd', '_', 'a', 'c', 't', 'i', 'o', 'n', '_']
}

/// The name `unnamed_action_` followed by the decimal digits of `index`.
fn unnamed_action_name(index: usize) -> (r: String)
    ensures
        r@ == unnamed_action_prefix() + decimal(index as nat),
{
    let mut name = String::from_str("unnamed_action_");
    proof {
        reveal_strlit("unnamed_action_");
        assert("unnamed_action_"@ =~= unnamed_action_prefix());
    }
    name.append(decimal_text(index as u64).as_str());
    name
}

proof fn lemma_decimal_digits(n: nat)
    ensures
        forall|i: int| 0 <= i < decimal(n).len() ==> #[trigger] is_digit_char(decimal(n)[i]),
        decimal(n).len() > 0,
    decreases n,
{
    if n >= 10 {
        lemma_decimal_digits(n / 10);
        assert forall|i: int| 0 <= i < decimal(n).len() implies #[trigger] is_digit_char(decimal(n)[i]) by {
            if i < decimal(n / 10).len() {
                assert(decimal(n)[i] == decimal(n / 10)[i]);
            }
        }
    }
}

/// The names given to unnamed actions are legal identifiers.
pub proof fn lemma_unnamed_action_name_legal(n: nat)
    ensures
        name_error(unnamed_action_prefix() + decimal(n), true) is None,
{
    let name = unnamed_action_prefix() + decimal(n);
    lemma_decimal_digits(n);
    assert forall|i: int| 0 <= i < name.len() implies is_identifier_char(#[trigger] name[i]) by {
        if i >= unnamed_action_prefix().len() {
            assert(name[i] == decimal(n)[i - unnamed_action_prefix().len()]);
        }
    }
    assert(name[0] == 'u');
}

/// The number of commands without action in a list of commands.
pub open spec fn unnamed_in<V, S: Span, E, A>(commands: Seq<Command<V, S, E, A>>) -> nat
    decreases commands.len(),
{
    if commands.len() == 0 {
        0
    } else {
        unnamed_in(commands.drop_last()) + if commands.last().action is None {
            1nat
        } else {
            0nat
        }
    }
}

/// The number of commands without action in a list of modules.
pub open spec fn unnamed_in_modules<V, S: Span, E, A>(modules: Seq<Module<V, S, E, A>>) -> nat
    decreases modules.len(),
{
    if modules.len() == 0 {
        0
    } else {
        unnamed_in_modules(modules.drop_last()) + unnamed_in(modules.last().commands@)
    }
}

/// `b` is `a` where the action of every command without action is named: the `k`-th such
/// command (counting from `first`) gets an identifier whose name `f` may return for `k` and
/// the command's action span, and whose span is the action span.
pub open spec fn commands_named<V, S: Span, E, F: Fn(usize, &S) -> String>(
    a: Seq<Command<V, S, E, Identifier<S>>>,
    b: Seq<Command<V, S, E, Identifier<S>>>,
    first: nat,
    f: F,
) -> bool {
    &&& b.len() == a.len()
    &&& forall|j: int|
        0 <= j < a.len() ==> {
            let c = #[trigger] a[j];
            let d = b[j];
            if c.action is None {
                &&& d == (Command { action: d.action, ..c })
                &&& d.action matches Some(id) && id.span == c.action_span && exists|n: String|
                    #[trigger] call_ensures(f, ((first + unnamed_in(a.take(j))) as usize, &c.action_span), n)
                        && id.name@ == n@
            } else {
                d == c
            }
        }
}

proof fn lemma_unnamed_in_take<V, S: Span, E, A>(s: Seq<Command<V, S, E, A>>, j: int)
    requires
        0 <= j < s.len(),
    ensures
        unnamed_in(s.take(j + 1)) == unnamed_in(s.take(j)) + if s[j].action is None {
            1nat
        } else {
            0nat
        },
{
    assert(s.take(j + 1).drop_last() =~= s.take(j));
}

proof fn lemma_unnamed_in_modules_take<V, S: Span, E, A>(s: Seq<Module<V, S, E, A>>, j: int)
    requires
        0 <= j < s.len(),
    ensures
        unnamed_in_modules(s.take(j + 1)) == unnamed_in_modules(s.take(j)) + unnamed_in(s[j].commands@),
{
    assert(s.take(j + 1).drop_last() =~= s.take(j));
}

proof fn lemma_unnamed_in_prefix<V, S: Span, E, A>(s: Seq<Command<V, S, E, A>>, j: int)
    requires
        0 <= j <= s.len(),
    ensures
        unnamed_in(s.take(j)) <= unnamed_in(s),
    decreases s.len() - j,
{
    if j < s.len() {
        lemma_unnamed_in_take(s, j);
        lemma_unnamed_in_prefix(s, j + 1);
    } else {
        assert(s.take(j) =~= s);
    }
}

proof fn lemma_unnamed_in_modules_prefix<V, S: Span, E, A>(s: Seq<Module<V, S, E, A>>, j: int)
    requires
        0 <= j <= s.len(),
    ensures
        unnamed_in_modules(s.take(j)) <= unnamed_in_modules(s),
    decreases s.len() - j,
{
    if j < s.len() {
        lemma_unnamed_in_modules_take(s, j);
        lemma_unnamed_in_modules_prefix(s, j + 1);
    } else {
        assert(s.take(j) =~= s);
    }
}

/// Names the commands without action, the `k`-th of them with `name_function(first + k, span)`;
/// returns the commands and the number of commands without action added to `first`.
fn name_commands<V, S: Span, E, F: Fn(usize, &S) -> String>(
    commands: Vec<Command<V, S, E, Identifier<S>>>,
    first: usize,
    name_function: &F,
) -> (r: (Vec<Command<V, S, E, Identifier<S>>>, usize))
    requires
        forall|k: usize, s: S| #[trigger] call_requires(*name_function, (k, &s)),
        forall|k: usize, s: S, n: String|
            #[trigger] call_ensures(*name_function, (k, &s), n) ==> name_error(n@, true) is None,
        first + unnamed_in(commands@) <= usize::MAX,
    ensures
        commands_named(commands@, r.0@, first as nat, *name_function),
        r.1 == first + unnamed_in(commands@),
{
    let ghost cmds = commands@;
    let mut counter = first;
    let mut out: Vec<Command<V, S, E, Identifier<S>>> = Vec::new();
    let mut crest = commands;
    assert(cmds.skip(0) =~= cmds);
    assert(cmds.take(0) =~= Seq::<Command<V, S, E, Identifier<S>>>::empty());
    while crest.len() > 0
        invariant
            forall|k: usize, s: S| #[trigger] call_requires(*name_function, (k, &s)),
            forall|k: usize, s: S, n: String|
                #[trigger] call_ensures(*name_function, (k, &s), n) ==> name_error(n@, true) is None,
            first + unnamed_in(cmds) <= usize::MAX,
            out@.len() <= cmds.len(),
            crest@ == cmds.skip(out@.len() as int),
            counter == first + unnamed_in(cmds.take(out@.len() as int)),
            forall|j: int|
                0 <= j < out@.len() ==> {
                    let c = #[trigger] cmds[j];
                    let d = out@[j];
                    if c.action is None {
                        &&& d == (Command { action: d.action, ..c })
                        &&& d.action matches Some(id) && id.span == c.action_span && exists|n: String|
                            #[trigger] call_ensures(*name_function, ((first + unnamed_in(cmds.take(j))) as usize, &c.action_span), n)
                                && id.name@ == n@
                    } else {
                        d == c
                    }
                },
        decreases crest.len(),
    {
        let ghost ci = out@.len() as int;
        proof {
            assert(cmds.skip(ci).drop_first() =~= cmds.skip(ci + 1));
            lemma_unnamed_in_take(cmds, ci);
            lemma_unnamed_in_prefix(cmds, ci + 1);
        }
        let command = crest.remove(0);
        if command.action.is_none() {
            let name = name_function(counter, &command.action_span);
            let identifier = match Identifier::new_potentially_reserved_spanned(
                name.as_str(),
                command.action_span.duplicate(),
            ) {
                Ok(identifier) => identifier,
                Err(_) => {
                    proof {
                        assert(false);
                    }
                    return (out, counter);
                },
            };
            let named = Command { action: Some(identifier), ..command };
            out.push(named);
            counter = counter + 1;
        } else {
            out.push(command);
        }
    }
    proof {
        assert(cmds.take(cmds.len() as int) =~= cmds);
    }
    (out, counter)
}

impl<V, S: Span, E> Model<V, S, E, Identifier<S>> {
    /// Gives every command without action an action: the `k`-th such command (counting from 0,
    /// module by module, command by command) gets the name `name_function(k, action_span)`,
    /// spanned by its action span. Everything else is kept.
    ///
    /// `name_function` must return legal identifiers (reserved keywords are allowed).
    pub fn name_unnamed_actions_with_custom_name<F: Fn(usize, &S) -> String>(&mut self, name_function: F)
        requires
            forall|k: usize, s: S| #[trigger] call_requires(name_function, (k, &s)),
            forall|k: usize, s: S, n: String|
                #[trigger] call_ensures(name_function, (k, &s), n) ==> name_error(n@, true) is None,
            unnamed_in_modules(old(self).modules.modules@) <= usize::MAX,
        ensures
            *final(self) == (Model { modules: final(self).modules, ..*old(self) }),
            final(self).modules.modules@.len() == old(self).modules.modules@.len(),
            forall|i: int|
                0 <= i < old(self).modules.modules@.len() ==> {
                    let m = #[trigger] old(self).modules.modules@[i];
                    let m2 = final(self).modules.modules@[i];
                    &&& m2.name == m.name
                    &&& m2.span == m.span
                    &&& commands_named(
                        m.commands@,
                        m2.commands@,
                        unnamed_in_modules(old(self).modules.modules@.take(i)),
                        name_function,
                    )
                },
    {
        let mut modules: Vec<Module<V, S, E, Identifier<S>>> = Vec::new();
        std::mem::swap(&mut modules, &mut self.modules.modules);
        let ghost orig = modules@;
        let mut out: Vec<Module<V, S, E, Identifier<S>>> = Vec::new();
        let mut rest = modules;
        let mut counter: usize = 0;
        assert(orig.skip(0) =~= orig);
        assert(orig.take(0) =~= Seq::<Module<V, S, E, Identifier<S>>>::empty());
        while rest.len() > 0
            invariant
                forall|k: usize, s: S| #[trigger] call_requires(name_function, (k, &s)),
                forall|k: usize, s: S, n: String|
                    #[trigger] call_ensures(name_function, (k, &s), n) ==> name_error(n@, true) is None,
                unnamed_in_modules(orig) <= usize::MAX,
                out@.len() <= orig.len(),
                rest@ == orig.skip(out@.len() as int),
                counter == unnamed_in_modules(orig.take(out@.len() as int)),
                forall|i: int|
                    0 <= i < out@.len() ==> {
                        let m = #[trigger] orig[i];
                        let m2 = out@[i];
                        &&& m2.name == m.name
                        &&& m2.span == m.span
                        &&& commands_named(
                            m.commands@,
                            m2.commands@,
                            unnamed_in_modules(orig.take(i)),
                            name_function,
                        )
                    },
            decreases rest.len(),
        {
            let ghost mi = out@.len() as int;
            proof {
                assert(orig.skip(mi).drop_first() =~= orig.skip(mi + 1));
                lemma_unnamed_in_modules_take(orig, mi);
                lemma_unnamed_in_modules_prefix(orig, mi + 1);
            }
            let module = rest.remove(0);
            let ghost cmds = module.commands@;
            let (commands, next) = name_commands(module.commands, counter, &name_function);
            counter = next;
            out.push(Module { name: module.name, commands, span: module.span });
        }
        self.modules.modules = out;
    }
}

impl<V, S: Span, E> Model<V, S, E, Identifier<S>> {
    /// Gives every command without action the action `unnamed_action_k`, where `k` counts the
    /// commands without action from 0, module by module, command by command.
    #[verifier::rlimit(40)]
    pub fn name_unnamed_actions(&mut self)
        requires
            unnamed_in_modules(old(self).modules.modules@) <= usize::MAX,
        ensures
            *final(self) == (Model { modules: final(self).modules, ..*old(self) }),
            final(self).modules.modules@.len() == old(self).modules.modules@.len(),
            forall|i: int|
                0 <= i < old(self).modules.modules@.len() ==> {
                    let m = #[trigger] old(self).modules.modules@[i];
                    let m2 = final(self).modules.modules@[i];
                    &&& m2.name == m.name
                    &&& m2.span == m.span
                    &&& m2.commands@.len() == m.commands@.len()
                    &&& forall|j: int|
                        0 <= j < m.commands@.len() ==> {
                            let c = #[trigger] m.commands@[j];
                            let d = m2.commands@[j];
                            if c.action is None {
                                &&& d == (Command { action: d.action, ..c })
                                &&& d.action matches Some(id) && id.span == c.action_span && id.name@
                                    == unnamed_action_prefix() + decimal(
                                    unnamed_in_modules(old(self).modules.modules@.take(i)) + unnamed_in(
                                        m.commands@.take(j),
                                    ),
                                )
                            } else {
                                d == c
                            }
                        }
                },
    {
        let f = |k: usize, s: &S| -> (r: String)
            ensures
                r@ == unnamed_action_prefix() + decimal(k as nat),
                name_error(r@, true) is None,
            {
                proof {
                    lemma_unnamed_action_name_legal(k as nat);
                }
                unnamed_action_name(k)
            };
        let ghost mods = self.modules.modules@;
        self.name_unnamed_actions_with_custom_name(f);
        proof {
            assert forall|i: int| 0 <= i < mods.len() implies {
                let m = #[trigger] mods[i];
                let m2 = self.modules.modules@[i];
                forall|j: int|
                    0 <= j < m.commands@.len() ==> {
                        let c = #[trigger] m.commands@[j];
                        let d = m2.commands@[j];
                        c.action is None ==> (d.action matches Some(id) && id.name@ == unnamed_action_prefix()
                            + decimal(unnamed_in_modules(mods.take(i)) + unnamed_in(m.commands@.take(j))))
                    }
            } by {
                let m = mods[i];
                let m2 = self.modules.modules@[i];
                let first = unnamed_in_modules(mods.take(i));
                lemma_unnamed_in_modules_take(mods, i);
                lemma_unnamed_in_modules_prefix(mods, i + 1);
                assert(commands_named(m.commands@, m2.commands@, first, f));
                assert forall|j: int| 0 <= j < m.commands@.len() implies {
                    let c = #[trigger] m.commands@[j];
                    let d = m2.commands@[j];
                    c.action is None ==> (d.action matches Some(id) && id.name@ == unnamed_action_prefix()
                        + decimal(first + unnamed_in(m.commands@.take(j))))
                } by {
                    let c = m.commands@[j];
                    if c.action is None {
                        lemma_unnamed_in_prefix(m.commands@, j);
                        let k = first + unnamed_in(m.commands@.take(j));
                        assert(k <= usize::MAX);
                        let n = choose|n: String|
                            #[trigger] call_ensures(f, (k as usize, &c.action_span), n)
                                && m2.commands@[j].action->0.name@ == n@;
                        assert(n@ == unnamed_action_prefix() + decimal((k as usize) as nat));
                    }
                }
            }
        }
    }
}

/// The command's action is named `name`.
pub open spec fn action_named<V, S: Span, E>(c: Command<V, S, E, Identifier<S>>, name: Seq<char>) -> bool {
    c.action matches Some(a) && a.name@ == name
}

/// Some command of the module has the action `name`.
pub open spec fn module_has_action<V, S: Span, E>(m: Module<V, S, E, Identifier<S>>, name: Seq<char>) -> bool {
    exists|c: int| 0 <= c < m.commands@.len() && #[trigger] action_named(m.commands@[c], name)
}

/// Two different modules among `modules` have the action `name`.
pub open spec fn is_synchronising<V, S: Span, E>(modules: Seq<Module<V, S, E, Identifier<S>>>, name: Seq<char>) -> bool {
    exists|i: int, j: int|
        0 <= i < j < modules.len() && #[trigger] module_has_action(modules[i], name) && #[trigger] module_has_action(
            modules[j],
            name,
        )
}

/// Some string of `v` is `name`.
pub open spec fn string_in(v: Seq<String>, name: Seq<char>) -> bool {
    exists|p: int| 0 <= p < v.len() && #[trigger] v[p]@ == name
}

/// No two strings of `v` are equal.
pub open spec fn strings_distinct(v: Seq<String>) -> bool {
    forall|p: int, q: int| 0 <= p < v.len() && 0 <= q < v.len() && p != q ==> #[trigger] v[p]@ != #[trigger] v[q]@
}

/// Whether `name` is among the strings of `v`.
fn contains_string(v: &Vec<String>, name: &str) -> (r: bool)
    ensures
        r == string_in(v@, name@),
{
    let mut i: usize = 0;
    while i < v.len()
        invariant
            i <= v@.len(),
            forall|p: int| 0 <= p < i ==> v@[p]@ != name@,
        decreases v.len() - i,
    {
        if crate::identifier::str_equal(v[i].as_str(), name) {
            return true;
        }
        i = i + 1;
    }
    false
}

/// Appending a string that is not there keeps the strings distinct.
proof fn lemma_push_string(v: Seq<String>, s: String)
    requires
        strings_distinct(v),
        !string_in(v, s@),
    ensures
        strings_distinct(v.push(s)),
        forall|n: Seq<char>| string_in(v.push(s), n) <==> (string_in(v, n) || n == s@),
{
    assert forall|p: int, q: int| 0 <= p < v.push(s).len() && 0 <= q < v.push(s).len() && p != q implies #[trigger] v.push(s)[p]@
        != #[trigger] v.push(s)[q]@ by {
        if p == v.len() {
            assert(v.push(s)[q] == v[q]);
        } else if q == v.len() {
            assert(v.push(s)[p] == v[p]);
        } else {
            assert(v.push(s)[p] == v[p]);
            assert(v.push(s)[q] == v[q]);
        }
    }
    assert forall|n: Seq<char>| string_in(v.push(s), n) <==> (string_in(v, n) || n == s@) by {
        if string_in(v.push(s), n) {
            let p = choose|p: int| 0 <= p < v.push(s).len() && #[trigger] v.push(s)[p]@ == n;
            if p < v.len() {
                assert(v[p]@ == n);
            }
        }
        if string_in(v, n) {
            let p = choose|p: int| 0 <= p < v.len() && #[trigger] v[p]@ == n;
            assert(v.push(s)[p]@ == n);
        }
        if n == s@ {
            assert(v.push(s)[v.len() as int]@ == n);
        }
    }
}

/// One of the first `c` commands has the action `name`.
pub open spec fn actions_upto<V, S: Span, E>(cmds: Seq<Command<V, S, E, Identifier<S>>>, c: int, name: Seq<char>) -> bool {
    exists|x: int| 0 <= x < c && #[trigger] action_named(cmds[x], name)
}

proof fn lemma_actions_upto_step<V, S: Span, E>(cmds: Seq<Command<V, S, E, Identifier<S>>>, c: int, name: Seq<char>)
    requires
        0 <= c < cmds.len(),
    ensures
        actions_upto(cmds, c + 1, name) <==> (actions_upto(cmds, c, name) || action_named(cmds[c], name)),
{
    if actions_upto(cmds, c + 1, name) {
        let x = choose|x: int| 0 <= x < c + 1 && #[trigger] action_named(cmds[x], name);
        if x < c {
            assert(actions_upto(cmds, c, name));
        }
    }
    if actions_upto(cmds, c, name) {
        let x = choose|x: int| 0 <= x < c && #[trigger] action_named(cmds[x], name);
        assert(0 <= x < c + 1 && action_named(cmds[x], name));
    }
    if action_named(cmds[c], name) {
        assert(0 <= c < c + 1 && action_named(cmds[c], name));
    }
}

/// One of the first `k` strings of `v` is `name`.
pub open spec fn strings_upto(v: Seq<String>, k: int, name: Seq<char>) -> bool {
    exists|x: int| 0 <= x < k && #[trigger] v[x]@ == name
}

proof fn lemma_strings_upto_step(v: Seq<String>, k: int, name: Seq<char>)
    requires
        0 <= k < v.len(),
    ensures
        strings_upto(v, k + 1, name) <==> (strings_upto(v, k, name) || v[k]@ == name),
        strings_upto(v, v.len() as int, name) <==> string_in(v, name),
{
    if strings_upto(v, k + 1, name) {
        let x = choose|x: int| 0 <= x < k + 1 && #[trigger] v[x]@ == name;
        if x < k {
            assert(strings_upto(v, k, name));
        }
    }
    if strings_upto(v, k, name) {
        let x = choose|x: int| 0 <= x < k && #[trigger] v[x]@ == name;
        assert(0 <= x < k + 1 && v[x]@ == name);
    }
    if v[k]@ == name {
        assert(0 <= k < k + 1 && v[k]@ == name);
    }
}

/// One of the first `a` modules has the action `name`.
pub open spec fn modules_upto<V, S: Span, E>(mods: Seq<Module<V, S, E, Identifier<S>>>, a: int, name: Seq<char>) -> bool {
    exists|x: int| 0 <= x < a && #[trigger] module_has_action(mods[x], name)
}

/// Two of the first `a` modules have the action `name`.
pub open spec fn modules_twice_upto<V, S: Span, E>(mods: Seq<Module<V, S, E, Identifier<S>>>, a: int, name: Seq<char>) -> bool {
    exists|x: int, y: int|
        0 <= x < y < a && #[trigger] module_has_action(mods[x], name) && #[trigger] module_has_action(mods[y], name)
}

proof fn lemma_modules_upto_step<V, S: Span, E>(mods: Seq<Module<V, S, E, Identifier<S>>>, a: int, name: Seq<char>)
    requires
        0 <= a < mods.len(),
    ensures
        modules_upto(mods, a + 1, name) <==> (modules_upto(mods, a, name) || module_has_action(mods[a], name)),
        modules_twice_upto(mods, a + 1, name) <==> (modules_twice_upto(mods, a, name) || (modules_upto(mods, a, name)
            && module_has_action(mods[a], name))),
{
    if modules_upto(mods, a + 1, name) {
        let x = choose|x: int| 0 <= x < a + 1 && #[trigger] module_has_action(mods[x], name);
        if x < a {
            assert(modules_upto(mods, a, name));
        }
    }
    if modules_upto(mods, a, name) {
        let x = choose|x: int| 0 <= x < a && #[trigger] module_has_action(mods[x], name);
        assert(0 <= x < a + 1 && module_has_action(mods[x], name));
        if module_has_action(mods[a], name) {
            assert(0 <= x < a < a + 1 && module_has_action(mods[x], name) && module_has_action(mods[a], name));
        }
    }
    if module_has_action(mods[a], name) {
        assert(0 <= a < a + 1 && module_has_action(mods[a], name));
    }
    if modules_twice_upto(mods, a + 1, name) {
        let (x, y) = choose|x: int, y: int|
            0 <= x < y < a + 1 && #[trigger] module_has_action(mods[x], name) && #[trigger] module_has_action(mods[y], name);
        if y < a {
            assert(modules_twice_upto(mods, a, name));
        } else {
            assert(modules_upto(mods, a, name));
        }
    }
    if modules_twice_upto(mods, a, name) {
        let (x, y) = choose|x: int, y: int|
            0 <= x < y < a && #[trigger] module_has_action(mods[x], name) && #[trigger] module_has_action(mods[y], name);
        assert(0 <= x < y < a + 1 && module_has_action(mods[x], name) && module_has_action(mods[y], name));
    }
}

impl<V, S: Span, E> Model<V, S, E, Identifier<S>> {
    /// Returns the names of the actions that occur in at least two different modules, each once
    /// (in no particular order).
    pub fn actually_synchronising_actions(&self) -> (r: Vec<String>)
        ensures
            strings_distinct(r@),
            forall|p: int| 0 <= p < r@.len() ==> is_synchronising(self.modules.modules@, #[trigger] r@[p]@),
            forall|name: Seq<char>| #[trigger] is_synchronising(self.modules.modules@, name) ==> string_in(r@, name),
    {
        let ghost mods = self.modules.modules@;
        let mut seen: Vec<String> = Vec::new();
        let mut result: Vec<String> = Vec::new();
        let mut i: usize = 0;
        while i < self.modules.modules.len()
            invariant
                mods == self.modules.modules@,
                i <= mods.len(),
                strings_distinct(seen@),
                strings_distinct(result@),
                forall|n: Seq<char>| #[trigger] string_in(seen@, n) <==> modules_upto(mods, i as int, n),
                forall|n: Seq<char>| #[trigger] string_in(result@, n) <==> modules_twice_upto(mods, i as int, n),
            decreases self.modules.modules.len() - i,
        {
            let module = &self.modules.modules[i];
            let ghost cmds = module.commands@;
            let mut module_actions: Vec<String> = Vec::new();
            let mut c: usize = 0;
            while c < module.commands.len()
                invariant
                    cmds == module.commands@,
                    c <= cmds.len(),
                    strings_distinct(module_actions@),
                    forall|n: Seq<char>| #[trigger] string_in(module_actions@, n) <==> actions_upto(cmds, c as int, n),
                decreases module.commands.len() - c,
            {
                let ghost before = module_actions@;
                if let Some(action) = &module.commands[c].action {
                    if !contains_string(&module_actions, action.name.as_str()) {
                        let name = action.name.clone();
                        proof {
                            lemma_push_string(module_actions@, name);
                        }
                        module_actions.push(name);
                    }
                    proof {
                        assert forall|n: Seq<char>| #[trigger] string_in(module_actions@, n) <==> (string_in(before, n)
                            || action_named(cmds[c as int], n)) by {}
                    }
                } else {
                    proof {
                        assert forall|n: Seq<char>| #[trigger] string_in(module_actions@, n) <==> (string_in(before, n)
                            || action_named(cmds[c as int], n)) by {}
                    }
                }
                proof {
                    assert forall|n: Seq<char>| #[trigger] string_in(module_actions@, n) <==> actions_upto(cmds, c + 1, n) by {
                        lemma_actions_upto_step(cmds, c as int, n);
                        assert(string_in(module_actions@, n) <==> (string_in(before, n) || action_named(cmds[c as int], n)));
                    }
                }
                c = c + 1;
            }
            proof {
                assert forall|n: Seq<char>| #[trigger] string_in(module_actions@, n) <==> module_has_action(mods[i as int], n) by {
                    if module_has_action(mods[i as int], n) {
                        let x = choose|x: int| 0 <= x < cmds.len() && #[trigger] action_named(cmds[x], n);
                        assert(actions_upto(cmds, c as int, n));
                    }
                }
            }
            let ghost ma = module_actions@;
            let ghost seen0 = seen@;
            let ghost result0 = result@;
            let mut k: usize = 0;
            while k < module_actions.len()
                invariant
                    mods == self.modules.modules@,
                    ma == module_actions@,
                    i < mods.len(),
                    k <= ma.len(),
                    strings_distinct(ma),
                    strings_distinct(seen@),
                    strings_distinct(result@),
                    forall|n: Seq<char>| #[trigger] string_in(ma, n) <==> module_has_action(mods[i as int], n),
                    forall|n: Seq<char>| #[trigger] string_in(seen0, n) <==> modules_upto(mods, i as int, n),
                    forall|n: Seq<char>| #[trigger] string_in(result0, n) <==> modules_twice_upto(mods, i as int, n),
                    forall|n: Seq<char>|
                        #[trigger] string_in(seen@, n) <==> (string_in(seen0, n) || strings_upto(ma, k as int, n)),
                    forall|n: Seq<char>|
                        #[trigger] string_in(result@, n) <==> (string_in(result0, n) || (string_in(seen0, n)
                            && strings_upto(ma, k as int, n))),
                decreases module_actions.len() - k,
            {
                let action = &module_actions[k];
                let ghost ak = ma[k as int]@;
                proof {
                    lemma_strings_upto_step(ma, k as int, ak);
                    if strings_upto(ma, k as int, ak) {
                        let x = choose|x: int| 0 <= x < k && #[trigger] ma[x]@ == ak;
                        assert(ma[x]@ != ma[k as int]@);
                    }
                }
                let ghost seen_b = seen@;
                let ghost result_b = result@;
                if contains_string(&seen, action.as_str()) {
                    if !contains_string(&result, action.as_str()) {
                        let name = action.clone();
                        proof {
                            lemma_push_string(result@, name);
                        }
                        result.push(name);
                    }
                    proof {
                        assert(string_in(seen0, ak));
                        assert forall|n: Seq<char>| #[trigger] string_in(result@, n) <==> (string_in(result_b, n) || n == ak) by {}
                        assert(seen@ == seen_b);
                    }
                } else {
                    let name = action.clone();
                    proof {
                        lemma_push_string(seen@, name);
                        assert(!string_in(seen0, ak));
                    }
                    seen.push(name);
                    proof {
                        assert forall|n: Seq<char>| #[trigger] string_in(seen@, n) <==> (string_in(seen_b, n) || n == ak) by {}
                        assert(result@ == result_b);
                    }
                }
                proof {
                    assert forall|n: Seq<char>|
                        #[trigger] string_in(seen@, n) <==> (string_in(seen0, n) || strings_upto(ma, k + 1, n)) by {
                        lemma_strings_upto_step(ma, k as int, n);
                        assert(string_in(seen_b, n) <==> (string_in(seen0, n) || strings_upto(ma, k as int, n)));
                    }
                    assert forall|n: Seq<char>|
                        #[trigger] string_in(result@, n) <==> (string_in(result0, n) || (string_in(seen0, n)
                            && strings_upto(ma, k + 1, n))) by {
                        lemma_strings_upto_step(ma, k as int, n);
                        assert(string_in(result_b, n) <==> (string_in(result0, n) || (string_in(seen0, n)
                            && strings_upto(ma, k as int, n))));
                    }
                }
                k = k + 1;
            }
            proof {
                assert forall|n: Seq<char>| #[trigger] string_in(seen@, n) <==> modules_upto(mods, i + 1, n) by {
                    lemma_modules_upto_step(mods, i as int, n);
                    if ma.len() > 0 {
                        lemma_strings_upto_step(ma, 0, n);
                    }
                    assert(strings_upto(ma, ma.len() as int, n) <==> string_in(ma, n));
                }
                assert forall|n: Seq<char>| #[trigger] string_in(result@, n) <==> modules_twice_upto(mods, i + 1, n) by {
                    lemma_modules_upto_step(mods, i as int, n);
                    assert(strings_upto(ma, ma.len() as int, n) <==> string_in(ma, n));
                }
            }
            i = i + 1;
        }
        proof {
            assert forall|p: int| 0 <= p < result@.len() implies is_synchronising(mods, #[trigger] result@[p]@) by {
                assert(string_in(result@, result@[p]@));
                let n = result@[p]@;
                assert(modules_twice_upto(mods, mods.len() as int, n));
            }
            assert forall|name: Seq<char>| #[trigger] is_synchronising(mods, name) implies string_in(result@, name) by {
                assert(modules_twice_upto(mods, mods.len() as int, name));
            }
        }
        result
    }
}

} // verus!
