use vstd::prelude::*;
use crate::binary_tree::BinaryTree;
use crate::functions::{builtin_template, make_builtin_func_box};
use crate::num::{value_text, Num, Value};
use crate::parser::{plain, tree_wf, Element, Expr};
use crate::scalar::{floats_of, lawful, Answer, Floats, Query};
use crate::text::{lowercased, to_lowercase};

verus! {

/// What a name is bound to: a number, or a function body with the name of
/// its parameter.
#[derive(Debug, PartialEq)]
pub enum Data {
    Num(Num),
    Func(Box<(BinaryTree<Element>, String)>),
}

/// A binding as a mathematical value.
pub enum DataView {
    Num(Value),
    Func(Expr, Seq<char>),
}

impl DataView {
    /// A function body calls built-in functions only.
    pub open spec fn plain(self) -> bool {
        match self {
            DataView::Num(_) => true,
            DataView::Func(body, _) => plain(body),
        }
    }
}

impl View for Data {
    type V = DataView;

    open spec fn view(&self) -> DataView {
        match self {
            Data::Num(n) => DataView::Num(n@),
            Data::Func(b) => DataView::Func(b.0@, b.1@),
        }
    }
}

impl Data {
    /// The numbers held are well formed.
    pub open spec fn wf(&self) -> bool {
        match self {
            Data::Num(n) => n.wf(),
            Data::Func(b) => tree_wf(b.0),
        }
    }

    /// A function body calls built-in functions only.
    pub open spec fn plain(&self) -> bool {
        match self {
            Data::Num(_) => true,
            Data::Func(b) => plain(b.0@),
        }
    }
}

/// A name and what it is bound to.
#[derive(Debug, PartialEq)]
pub struct Entry {
    pub key: String,
    pub value: Data,
}

/// Bindings in the order in which their names were first bound.
pub type Table = Seq<(Seq<char>, DataView)>;

/// The table that a vector of entries stands for.
pub open spec fn table_of(entries: Seq<Entry>) -> Table {
    entries.map_values(|e: Entry| (e.key@, e.value@))
}

/// The position of `key` in the table, if it is bound.
pub open spec fn position(t: Table, key: Seq<char>) -> Option<int>
    decreases t.len(),
{
    if t.len() == 0 {
        None
    } else if t.last().0 == key {
        Some(t.len() - 1)
    } else {
        position(t.drop_last(), key)
    }
}

/// What `key` is bound to in the table.
pub open spec fn lookup(t: Table, key: Seq<char>) -> Option<DataView> {
    match position(t, key) {
        Some(i) => Some(t[i].1),
        None => None,
    }
}

/// The table with `key` bound to `data`: in place if the key was bound, at
/// the end otherwise.
pub open spec fn bound(t: Table, key: Seq<char>, data: DataView) -> Table {
    match position(t, key) {
        Some(i) => t.update(i, (key, data)),
        None => t.push((key, data)),
    }
}

/// No name is bound twice.
pub open spec fn distinct(t: Table) -> bool {
    forall|i: int, j: int| 0 <= i < j < t.len() ==> (#[trigger] t[i]).0 != (#[trigger] t[j]).0
}

/// The built-in functions, each bound to its call template.
pub open spec fn builtin_table() -> Table {
    seq![
        ("exp"@, DataView::Func(builtin_template("exp"@), "x"@)),
        ("sqrt"@, DataView::Func(builtin_template("sqrt"@), "x"@)),
        ("abs"@, DataView::Func(builtin_template("abs"@), "x"@)),
        ("sin"@, DataView::Func(builtin_template("sin"@), "x"@)),
        ("cos"@, DataView::Func(builtin_template("cos"@), "x"@)),
        ("tan"@, DataView::Func(builtin_template("tan"@), "x"@)),
    ]
}

/// The session store as a mathematical value.
pub struct Store {
    pub data: Table,
    pub built_in: Table,
}

impl Store {
    /// What a name resolves to once it is in lowercase: the built-in of
    /// that name, or else what the user bound.
    pub open spec fn resolve(self, key: Seq<char>) -> Option<DataView> {
        match lookup(self.built_in, key) {
            Some(d) => Some(d),
            None => lookup(self.data, key),
        }
    }

    /// What a name resolves to.
    pub open spec fn get(self, name: Seq<char>) -> Option<DataView> {
        self.resolve(lowercased(name))
    }

    /// The number that a name resolves to.
    pub open spec fn get_num(self, name: Seq<char>) -> Option<Value> {
        match self.get(name) {
            Some(DataView::Num(n)) => Some(n),
            _ => None,
        }
    }

    /// The function that a name resolves to.
    pub open spec fn get_func(self, name: Seq<char>) -> Option<(Expr, Seq<char>)> {
        match self.get(name) {
            Some(DataView::Func(t, v)) => Some((t, v)),
            _ => None,
        }
    }

    /// The built-in function of exactly this name.
    pub open spec fn get_builtin_func(self, name: Seq<char>) -> Option<(Expr, Seq<char>)> {
        match lookup(self.built_in, name) {
            Some(DataView::Func(t, v)) => Some((t, v)),
            _ => None,
        }
    }

    /// Whether `key` can be bound to `data`: no built-in has that name,
    /// and a function body calls built-in functions only, so that a call
    /// of it never has to look up a second body.
    pub open spec fn admits(self, key: Seq<char>, data: DataView) -> bool {
        lookup(self.built_in, key) is None && data.plain()
    }

    /// The store after `key` has been offered for binding: bound if the
    /// store admits it, unchanged otherwise.
    pub open spec fn registered(self, key: Seq<char>, data: DataView) -> Store {
        if self.admits(key, data) {
            Store { data: bound(self.data, key, data), built_in: self.built_in }
        } else {
            self
        }
    }
}

/// The names known in a session: the bindings of the user and the built-in
/// functions, which cannot be rebound.
#[derive(Debug, PartialEq)]
pub struct DataBase {
    pub data: Vec<Entry>,
    pub built_in: Vec<Entry>,
}

impl View for DataBase {
    type V = Store;

    open spec fn view(&self) -> Store {
        Store { data: table_of(self.data@), built_in: table_of(self.built_in@) }
    }
}

/// Every binding of the entries is well formed, and every function body
/// among them calls built-in functions only.
pub open spec fn entries_wf(entries: Seq<Entry>) -> bool {
    forall|i: int|
        0 <= i < entries.len() ==> (#[trigger] entries[i]).value.wf() && entries[i].value.plain()
}

/// What the built-in table binds: exactly the six names, each to its call
/// template with the parameter `x`.
pub proof fn lemma_builtin_lookup(name: Seq<char>)
    ensures
        lookup(builtin_table(), name) == if crate::functions::is_builtin_name(name) {
            Some(DataView::Func(builtin_template(name), "x"@))
        } else {
            None
        },
        distinct(builtin_table()),
{
    crate::functions::lemma_names_differ();
    reveal_with_fuel(position, 7);
    let t = builtin_table();
    assert(t.len() == 6);
    assert(t.drop_last().len() == 5);
    assert(t.drop_last().drop_last().len() == 4);
    assert(t.drop_last().drop_last().drop_last().len() == 3);
    assert(t.drop_last().drop_last().drop_last().drop_last().len() == 2);
    assert(t.drop_last().drop_last().drop_last().drop_last().drop_last().len() == 1);
}

/// Whether every call in the expression names a built-in function.
pub fn calls_builtins_only(tree: &BinaryTree<Element>) -> (b: bool)
    ensures
        b == plain(tree@),
    decreases *tree,
{
    match tree {
        BinaryTree::Empty => true,
        BinaryTree::NonEmpty(node) => {
            let here = match &node.element {
                Element::Func(name) => {
                    let n = name.as_str();
                    crate::functions::str_is(n, "exp") || crate::functions::str_is(n, "sqrt")
                        || crate::functions::str_is(n, "abs") || crate::functions::str_is(n, "sin")
                        || crate::functions::str_is(n, "cos") || crate::functions::str_is(n, "tan")
                },
                _ => true,
            };
            here && calls_builtins_only(&node.left) && calls_builtins_only(&node.right)
        },
    }
}

/// Whether a function body, if the binding is one, calls built-in
/// functions only.
pub fn data_calls_builtins_only(data: &Data) -> (b: bool)
    ensures
        b == data@.plain(),
        b == data.plain(),
{
    match data {
        Data::Num(_) => true,
        Data::Func(f) => calls_builtins_only(&f.0),
    }
}

/// The entry that binds `key`, if there is one.
pub fn find(entries: &Vec<Entry>, key: &String) -> (at: Option<usize>)
    ensures
        match position(table_of(entries@), key@) {
            Some(i) => at == Some(i as usize) && 0 <= i < entries.len(),
            None => at is None,
        },
{
    let ghost t = table_of(entries@);
    let mut i: usize = entries.len();
    assert(t.subrange(0, i as int) =~= t);
    while i > 0
        invariant
            0 <= i <= entries.len(),
            t == table_of(entries@),
            position(t, key@) == position(t.subrange(0, i as int), key@),
        decreases i,
    {
        i -= 1;
        if entries[i].key == *key {
            return Some(i);
        }
        assert(t.subrange(0, i + 1).drop_last() =~= t.subrange(0, i as int));
    }
    None
}

/// A position that `position` reports holds the key, and no later one does.
pub proof fn lemma_position(t: Table, key: Seq<char>)
    ensures
        match position(t, key) {
            Some(i) => 0 <= i < t.len() && t[i].0 == key && forall|j: int|
                i < j < t.len() ==> (#[trigger] t[j]).0 != key,
            None => forall|j: int| 0 <= j < t.len() ==> (#[trigger] t[j]).0 != key,
        },
    decreases t.len(),
{
    if t.len() > 0 && t.last().0 != key {
        let front = t.drop_last();
        lemma_position(front, key);
        assert forall|j: int| 0 <= j < front.len() implies #[trigger] t[j] == front[j] by {}
        match position(front, key) {
            Some(i) => {
                assert forall|j: int| i < j < t.len() implies (#[trigger] t[j]).0 != key by {
                    if j < front.len() {
                        assert(front[j].0 != key);
                    }
                }
            },
            None => {
                assert forall|j: int| 0 <= j < t.len() implies (#[trigger] t[j]).0 != key by {
                    if j < front.len() {
                        assert(front[j].0 != key);
                    }
                }
            },
        }
    }
}

/// Binding a name keeps names distinct, makes the name resolve to what was
/// bound, and leaves every other name as it was.
pub proof fn lemma_bound(t: Table, key: Seq<char>, data: DataView, other: Seq<char>)
    requires
        distinct(t),
    ensures
        distinct(bound(t, key, data)),
        lookup(bound(t, key, data), key) == Some(data),
        other != key ==> lookup(bound(t, key, data), other) == lookup(t, other),
{
    let b = bound(t, key, data);
    lemma_position(t, key);
    lemma_position(b, key);
    lemma_position(b, other);
    lemma_position(t, other);
    match position(t, key) {
        Some(i) => {
            assert(b[i].0 == key);
            assert forall|x: int, y: int| 0 <= x < y < b.len() implies (#[trigger] b[x]).0 != (
            #[trigger] b[y]).0 by {
                assert(b[x].0 == t[x].0);
                assert(b[y].0 == t[y].0);
            }
            if other != key {
                match position(t, other) {
                    Some(j) => {
                        assert(b[j].0 == other);
                    },
                    None => {
                        if let Some(j) = position(b, other) {
                            assert(t[j].0 == b[j].0);
                        }
                    },
                }
                if let Some(j) = position(b, other) {
                    assert(t[j].0 == other);
                }
            }
        },
        None => {
            assert(b.last().0 == key);
            assert(b.drop_last() =~= t);
            assert forall|x: int, y: int| 0 <= x < y < b.len() implies (#[trigger] b[x]).0 != (
            #[trigger] b[y]).0 by {
                if y < t.len() {
                    assert(b[x] == t[x]);
                    assert(b[y] == t[y]);
                } else {
                    assert(b[x] == t[x]);
                }
            }
        },
    }
}

impl DataBase {
    /// No name is bound twice, every binding is well formed, and the
    /// built-in functions are the six that the calculator knows.
    pub open spec fn wf(&self) -> bool {
        &&& distinct(self@.data)
        &&& self@.built_in == builtin_table()
        &&& entries_wf(self.data@)
        &&& entries_wf(self.built_in@)
    }

    /// A store with the built-in functions and no other binding.
    pub fn new() -> (db: DataBase)
        ensures
            db.wf(),
            db@.data == Seq::<(Seq<char>, DataView)>::empty(),
            db@.built_in == builtin_table(),
    {
        let mut built_in: Vec<Entry> = Vec::new();
        Self::built_in_insert(&mut built_in, String::from_str("exp"));
        Self::built_in_insert(&mut built_in, String::from_str("sqrt"));
        Self::built_in_insert(&mut built_in, String::from_str("abs"));
        Self::built_in_insert(&mut built_in, String::from_str("sin"));
        Self::built_in_insert(&mut built_in, String::from_str("cos"));
        Self::built_in_insert(&mut built_in, String::from_str("tan"));
        let db = DataBase { data: Vec::new(), built_in };
        proof {
            crate::functions::lemma_names_differ();
            assert(db@.data =~= Seq::<(Seq<char>, DataView)>::empty());
            assert(db@.built_in =~= builtin_table());
        }
        db
    }

    fn built_in_insert(built_in: &mut Vec<Entry>, func_name: String)
        requires
            entries_wf(old(built_in)@),
            crate::functions::is_builtin_name(func_name@),
        ensures
            final(built_in)@.len() == old(built_in)@.len() + 1,
            table_of(final(built_in)@) == table_of(old(built_in)@).push(
                (func_name@, DataView::Func(builtin_template(func_name@), "x"@)),
            ),
            entries_wf(final(built_in)@),
    {
        let key = func_name.clone();
        let value = Data::Func(make_builtin_func_box(func_name));
        built_in.push(Entry { key, value });
        assert(table_of(built_in@) =~= table_of(old(built_in)@).push(
            (func_name@, DataView::Func(builtin_template(func_name@), "x"@)),
        ));
    }

    /// Binds `key`, taken as it is, if the store admits the binding. Tells
    /// whether the binding was made.
    pub fn register_exact(&mut self, key: String, data: Data) -> (done: bool)
        requires
            old(self).wf(),
            data.wf(),
        ensures
            final(self).wf(),
            done == old(self)@.admits(key@, data@),
            final(self)@ == old(self)@.registered(key@, data@),
    {
        match find(&self.built_in, &key) {
            Some(_) => {
                return false;
            },
            None => {},
        }
        if !data_calls_builtins_only(&data) {
            return false;
        }
        let ghost before = self.data@;
        let ghost k = key@;
        let ghost d = data@;
        proof {
            lemma_bound(table_of(before), k, d, k);
            lemma_position(table_of(before), k);
        }
        match find(&self.data, &key) {
            Some(i) => {
                self.data.set(i, Entry { key, value: data });
                assert(table_of(self.data@) =~= table_of(before).update(i as int, (k, d)));
            },
            None => {
                self.data.push(Entry { key, value: data });
                assert(table_of(self.data@) =~= table_of(before).push((k, d)));
            },
        }
        true
    }

    /// What `key`, taken as it is, resolves to.
    pub fn get_exact(&self, key: &String) -> (res: Option<&Data>)
        requires
            self.wf(),
        ensures
            match self@.resolve(key@) {
                Some(d) => res is Some && res->Some_0@ == d && res->Some_0.wf()
                    && res->Some_0.plain(),
                None => res is None,
            },
    {
        match find(&self.built_in, key) {
            Some(i) => Some(&self.built_in[i].value),
            None => match find(&self.data, key) {
                Some(i) => Some(&self.data[i].value),
                None => None,
            },
        }
    }

    /// Binds a name, in lowercase, to a number. The names of the built-in
    /// functions cannot be bound: the store is then left as it was.
    pub fn register_num(&mut self, name: &String, num: Num) -> (res: Result<(), String>)
        requires
            old(self).wf(),
            num.wf(),
        ensures
            final(self).wf(),
            final(self)@ == old(self)@.registered(lowercased(name@), DataView::Num(num@)),
            lookup(old(self)@.built_in, lowercased(name@)) is None ==> res is Ok,
            lookup(old(self)@.built_in, lowercased(name@)) is Some ==> res is Err && res->Err_0@
                == "The variable cannot be registered"@ && final(self)@ == old(self)@,
    {
        let key = to_lowercase(name.as_str());
        if self.register_exact(key, Data::Num(num)) {
            Ok(())
        } else {
            Err(String::from_str("The variable cannot be registered"))
        }
    }

    /// Binds a name, in lowercase, to a function body and its parameter.
    /// The names of the built-in functions cannot be bound, and a body is
    /// refused that calls anything but built-in functions: the store is
    /// then left as it was.
    pub fn register_func(&mut self, name: &String, tree: BinaryTree<Element>, variable: String) -> (res:
        Result<(), String>)
        requires
            old(self).wf(),
            tree_wf(tree),
        ensures
            final(self).wf(),
            final(self)@ == old(self)@.registered(
                lowercased(name@),
                DataView::Func(tree@, variable@),
            ),
            old(self)@.admits(lowercased(name@), DataView::Func(tree@, variable@)) ==> res is Ok,
            !old(self)@.admits(lowercased(name@), DataView::Func(tree@, variable@)) ==> res is Err
                && res->Err_0@ == "The function cannot be registered"@ && final(self)@ == old(
                self,
            )@,
    {
        let key = to_lowercase(name.as_str());
        if self.register_exact(key, Data::Func(Box::new((tree, variable)))) {
            Ok(())
        } else {
            Err(String::from_str("The function cannot be registered"))
        }
    }

    /// Whether the name, in lowercase, is that of a built-in function.
    pub fn is_builtin(&self, name: &String) -> (b: bool)
        requires
            self.wf(),
        ensures
            b == (lookup(self@.built_in, lowercased(name@)) is Some),
    {
        let key = to_lowercase(name.as_str());
        find(&self.built_in, &key).is_some()
    }

    /// What a name resolves to: a built-in first, the user's binding
    /// otherwise.
    pub fn get(&self, name: &String) -> (res: Option<&Data>)
        requires
            self.wf(),
        ensures
            match self@.get(name@) {
                Some(d) => res is Some && res->Some_0@ == d && res->Some_0.wf()
                    && res->Some_0.plain(),
                None => res is None,
            },
    {
        let key = to_lowercase(name.as_str());
        self.get_exact(&key)
    }

    /// The number that a name is bound to.
    pub fn get_num(&self, name: &String) -> (res: Option<&Num>)
        requires
            self.wf(),
        ensures
            match self@.get_num(name@) {
                Some(n) => res is Some && res->Some_0@ == n && res->Some_0.wf(),
                None => res is None,
            },
    {
        match self.get(name) {
            Some(Data::Num(n)) => Some(n),
            _ => None,
        }
    }

    /// The function that a name is bound to.
    pub fn get_func(&self, name: &String) -> (res: Option<&Box<(BinaryTree<Element>, String)>>)
        requires
            self.wf(),
        ensures
            match self@.get_func(name@) {
                Some(f) => res is Some && res->Some_0.0@ == f.0 && res->Some_0.1@ == f.1 && tree_wf(
                    res->Some_0.0,
                ) && plain(f.0),
                None => res is None,
            },
    {
        match self.get(name) {
            Some(Data::Func(f)) => Some(f),
            _ => None,
        }
    }

    /// The built-in function of exactly this name.
    pub fn get_builtin_func(&self, name: &String) -> (res: Option<
        &Box<(BinaryTree<Element>, String)>,
    >)
        requires
            self.wf(),
        ensures
            match self@.get_builtin_func(name@) {
                Some(f) => res is Some && res->Some_0.0@ == f.0 && res->Some_0.1@ == f.1 && tree_wf(
                    res->Some_0.0,
                ) && plain(f.0),
                None => res is None,
            },
    {
        match find(&self.built_in, name) {
            Some(i) => match &self.built_in[i].value {
                Data::Num(_) => None,
                Data::Func(f) => Some(f),
            },
            None => None,
        }
    }
}

} // verus!

verus! {

use crate::num::value_text as number_text;
use crate::printer::tree_text;

/// The lines that list the numbers among the first `n` bindings: the name,
/// a colon, the number.
pub open spec fn variable_lines(fl: Floats, t: Table, n: nat) -> Seq<char>
    decreases n,
{
    if n == 0 {
        Seq::empty()
    } else {
        let rest = variable_lines(fl, t, (n - 1) as nat);
        match t[n - 1].1 {
            DataView::Num(v) => rest + t[n - 1].0 + ": "@ + number_text(fl, v) + "\n"@,
            DataView::Func(_, _) => rest,
        }
    }
}

/// The lines that list the functions among the first `n` bindings: the
/// name, the parameter in parentheses, a colon, the body.
pub open spec fn function_lines(fl: Floats, t: Table, n: nat) -> Result<Seq<char>, Seq<char>>
    decreases n,
{
    if n == 0 {
        Ok(Seq::empty())
    } else {
        match function_lines(fl, t, (n - 1) as nat) {
            Err(m) => Err(m),
            Ok(rest) => match t[n - 1].1 {
                DataView::Num(_) => Ok(rest),
                DataView::Func(body, variable) => match tree_text(fl, body) {
                    Err(m) => Err(m),
                    Ok(s) => Ok(rest + t[n - 1].0 + "("@ + variable + "): "@ + s + "\n"@),
                },
            },
        }
    }
}

/// The listing of the numbers that the user has bound.
pub open spec fn variables_text(fl: Floats, t: Table) -> Seq<char> {
    let lines = variable_lines(fl, t, t.len());
    if lines.len() == 0 {
        "No variables defined yet\n"@
    } else {
        lines
    }
}

/// The listing of the functions that the user has defined.
pub open spec fn functions_text(fl: Floats, t: Table) -> Result<Seq<char>, Seq<char>> {
    match function_lines(fl, t, t.len()) {
        Err(m) => Err(m),
        Ok(lines) => if lines.len() == 0 {
            Ok("No functions defined yet\n"@)
        } else {
            Ok(lines)
        },
    }
}

/// Once a body cannot be written, no longer listing can.
pub proof fn lemma_function_lines_fail(fl: Floats, t: Table, n: nat, m: nat)
    requires
        n <= m,
        function_lines(fl, t, n) is Err,
    ensures
        function_lines(fl, t, m) == function_lines(fl, t, n),
    decreases m - n,
{
    if n < m {
        lemma_function_lines_fail(fl, t, n, (m - 1) as nat);
    }
}

impl DataBase {
    /// The numbers that the user has bound, one per line, in the order in
    /// which their names were first bound.
    pub fn show_variable<F: Fn(Query) -> Answer>(&self, fl: &F) -> (text: String)
        requires
            self.wf(),
            lawful(fl),
        ensures
            text@ == variables_text(floats_of(fl), self@.data),
    {
        let ghost f = floats_of(fl);
        let ghost t = self@.data;
        let mut string = String::new();
        let mut i: usize = 0;
        while i < self.data.len()
            invariant
                0 <= i <= self.data.len(),
                self.wf(),
                lawful(fl),
                f == floats_of(fl),
                t == self@.data,
                string@ == variable_lines(f, t, i as nat),
            decreases self.data.len() - i,
        {
            let entry = &self.data[i];
            let ghost before = string@;
            match &entry.value {
                Data::Num(n) => {
                    string.append(entry.key.as_str());
                    string.append(": ");
                    let s = n.to_string(fl);
                    string.append(s.as_str());
                    string.append("\n");
                    assert(string@ =~= before + t[i as int].0 + ": "@ + number_text(f, n@) + "\n"@);
                },
                Data::Func(_) => {},
            }
            i += 1;
        }
        if string.as_str().unicode_len() == 0 {
            String::from_str("No variables defined yet\n")
        } else {
            string
        }
    }

    /// The functions that the user has defined, one per line, in the order
    /// in which their names were first bound.
    pub fn show_function<F: Fn(Query) -> Answer>(&self, fl: &F) -> (res: Result<String, String>)
        requires
            self.wf(),
            lawful(fl),
        ensures
            match functions_text(floats_of(fl), self@.data) {
                Ok(s) => res is Ok && res->Ok_0@ == s,
                Err(m) => res is Err && res->Err_0@ == m,
            },
    {
        let ghost f = floats_of(fl);
        let ghost t = self@.data;
        let mut string = String::new();
        let mut i: usize = 0;
        while i < self.data.len()
            invariant
                0 <= i <= self.data.len(),
                self.wf(),
                lawful(fl),
                f == floats_of(fl),
                t == self@.data,
                function_lines(f, t, i as nat) == Ok::<Seq<char>, Seq<char>>(string@),
            decreases self.data.len() - i,
        {
            let entry = &self.data[i];
            let ghost before = string@;
            match &entry.value {
                Data::Num(_) => {},
                Data::Func(b) => {
                    let tree_string = match crate::parser::Parser::print_tree(&b.0, fl) {
                        Ok(s) => s,
                        Err(e) => {
                            proof {
                                lemma_function_lines_fail(f, t, (i + 1) as nat, t.len());
                            }
                            return Err(e);
                        },
                    };
                    string.append(entry.key.as_str());
                    string.append("(");
                    string.append(b.1.as_str());
                    string.append("): ");
                    string.append(tree_string.as_str());
                    string.append("\n");
                    assert(string@ =~= before + t[i as int].0 + "("@ + b.1@ + "): "@ + tree_string@
                        + "\n"@);
                },
            }
            i += 1;
        }
        if string.as_str().unicode_len() == 0 {
            Ok(String::from_str("No functions defined yet\n"))
        } else {
            Ok(string)
        }
    }
}

} // verus!
