//! Runtime values, type hints and resolved node trees, with their mathematical models.
use vstd::prelude::*;
use crate::text::{to_owned_string};

verus! {

/// A runtime value of the language.
///
/// `Float` holds the IEEE-754 bit pattern of a double; the verified core never computes
/// with floats itself, it only carries them.
#[derive(Debug, PartialEq)]
pub enum Value {
    Int(i64),
    Float(u64),
    Bool(bool),
    Str(String),
    List(Vec<Value>),
    Range(i64, i64),
    Dict(Vec<(String, Value)>),
    Node(Vec<ResolvedNode>),
    Lambda(String),
    Object(String),
    Null,
}

/// A node after evaluation: plain data, no logic left.
#[derive(Debug, PartialEq)]
pub struct ResolvedNode {
    pub node_type: String,
    pub id: Option<String>,
    /// Evaluated properties, one entry per key, in the order the keys were first set.
    pub props: Vec<(String, Value)>,
    pub children: Vec<ResolvedNode>,
}

/// The result of evaluating a file: its root nodes.
#[derive(Debug, PartialEq)]
pub struct ResolvedTree {
    pub root_nodes: Vec<ResolvedNode>,
}

/// Mathematical model of a [`Value`].
pub enum SValue {
    Int(i64),
    Float(u64),
    Bool(bool),
    Str(Seq<char>),
    List(Seq<SValue>),
    Range(i64, i64),
    Dict(Seq<(Seq<char>, SValue)>),
    Node(Seq<SNode>),
    Lambda(Seq<char>),
    Object(Seq<char>),
    Null,
}

/// Mathematical model of a [`ResolvedNode`].
pub struct SNode {
    pub node_type: Seq<char>,
    pub id: Option<Seq<char>>,
    pub props: Seq<(Seq<char>, SValue)>,
    pub children: Seq<SNode>,
}

pub open spec fn opt_str_view(o: Option<String>) -> Option<Seq<char>> {
    match o {
        Some(s) => Some(s@),
        None => None,
    }
}

pub open spec fn view_value(v: Value) -> SValue
    decreases v,
{
    match v {
        Value::Int(i) => SValue::Int(i),
        Value::Float(f) => SValue::Float(f),
        Value::Bool(b) => SValue::Bool(b),
        Value::Str(s) => SValue::Str(s@),
        Value::List(l) => SValue::List(view_values(l@)),
        Value::Range(a, b) => SValue::Range(a, b),
        Value::Dict(m) => SValue::Dict(view_entries(m@)),
        Value::Node(n) => SValue::Node(view_nodes(n@)),
        Value::Lambda(s) => SValue::Lambda(s@),
        Value::Object(s) => SValue::Object(s@),
        Value::Null => SValue::Null,
    }
}

pub open spec fn view_values(s: Seq<Value>) -> Seq<SValue>
    decreases s,
{
    if s.len() == 0 {
        Seq::empty()
    } else {
        view_values(s.drop_last()).push(view_value(s.last()))
    }
}

pub open spec fn view_entries(s: Seq<(String, Value)>) -> Seq<(Seq<char>, SValue)>
    decreases s,
{
    if s.len() == 0 {
        Seq::empty()
    } else {
        view_entries(s.drop_last()).push((s.last().0@, view_value(s.last().1)))
    }
}

pub open spec fn view_node(n: ResolvedNode) -> SNode
    decreases n,
{
    SNode {
        node_type: n.node_type@,
        id: opt_str_view(n.id),
        props: view_entries(n.props@),
        children: view_nodes(n.children@),
    }
}

pub open spec fn view_nodes(s: Seq<ResolvedNode>) -> Seq<SNode>
    decreases s,
{
    if s.len() == 0 {
        Seq::empty()
    } else {
        view_nodes(s.drop_last()).push(view_node(s.last()))
    }
}

impl View for Value {
    type V = SValue;

    open spec fn view(&self) -> SValue {
        view_value(*self)
    }
}

impl View for ResolvedNode {
    type V = SNode;

    open spec fn view(&self) -> SNode {
        view_node(*self)
    }
}

impl View for ResolvedTree {
    type V = Seq<SNode>;

    open spec fn view(&self) -> Seq<SNode> {
        view_nodes(self.root_nodes@)
    }
}

pub proof fn lemma_view_values(s: Seq<Value>)
    ensures
        view_values(s).len() == s.len(),
        forall|i: int| 0 <= i < s.len() ==> #[trigger] view_values(s)[i] == view_value(s[i]),
    decreases s.len(),
{
    if s.len() > 0 {
        lemma_view_values(s.drop_last());
        assert forall|i: int| 0 <= i < s.len() implies #[trigger] view_values(s)[i] == view_value(s[i]) by {
            if i < s.len() - 1 {
                assert(s.drop_last()[i] == s[i]);
            }
        }
    }
}

pub proof fn lemma_view_entries(s: Seq<(String, Value)>)
    ensures
        view_entries(s).len() == s.len(),
        forall|i: int| 0 <= i < s.len() ==> #[trigger] view_entries(s)[i] == (s[i].0@, view_value(s[i].1)),
    decreases s.len(),
{
    if s.len() > 0 {
        lemma_view_entries(s.drop_last());
        assert forall|i: int| 0 <= i < s.len() implies #[trigger] view_entries(s)[i] == (s[i].0@, view_value(s[i].1)) by {
            if i < s.len() - 1 {
                assert(s.drop_last()[i] == s[i]);
            }
        }
    }
}

pub proof fn lemma_view_nodes(s: Seq<ResolvedNode>)
    ensures
        view_nodes(s).len() == s.len(),
        forall|i: int| 0 <= i < s.len() ==> #[trigger] view_nodes(s)[i] == view_node(s[i]),
    decreases s.len(),
{
    if s.len() > 0 {
        lemma_view_nodes(s.drop_last());
        assert forall|i: int| 0 <= i < s.len() implies #[trigger] view_nodes(s)[i] == view_node(s[i]) by {
            if i < s.len() - 1 {
                assert(s.drop_last()[i] == s[i]);
            }
        }
    }
}

pub proof fn lemma_view_values_push(s: Seq<Value>, v: Value)
    ensures
        view_values(s.push(v)) == view_values(s).push(view_value(v)),
{
    assert(s.push(v).drop_last() =~= s);
}

pub proof fn lemma_view_entries_push(s: Seq<(String, Value)>, e: (String, Value))
    ensures
        view_entries(s.push(e)) == view_entries(s).push((e.0@, view_value(e.1))),
{
    assert(s.push(e).drop_last() =~= s);
}

pub proof fn lemma_view_nodes_push(s: Seq<ResolvedNode>, n: ResolvedNode)
    ensures
        view_nodes(s.push(n)) == view_nodes(s).push(view_node(n)),
{
    assert(s.push(n).drop_last() =~= s);
}

pub proof fn lemma_view_nodes_concat(a: Seq<ResolvedNode>, b: Seq<ResolvedNode>)
    ensures
        view_nodes(a + b) == view_nodes(a) + view_nodes(b),
    decreases b.len(),
{
    if b.len() == 0 {
        assert(a + b =~= a);
        assert(view_nodes(a) + view_nodes(b) =~= view_nodes(a));
    } else {
        lemma_view_nodes_concat(a, b.drop_last());
        assert((a + b).drop_last() =~= a + b.drop_last());
        assert(view_nodes(a) + view_nodes(b) =~= (view_nodes(a) + view_nodes(b.drop_last())).push(view_node(b.last())));
    }
}

/// Appends `more` to `out`, element by element.
pub fn extend_nodes(out: &mut Vec<ResolvedNode>, more: Vec<ResolvedNode>)
    ensures
        view_nodes(final(out)@) == view_nodes(old(out)@) + view_nodes(more@),
{
    let mut more = more;
    let ghost a = out@;
    let ghost b = more@;
    out.append(&mut more);
    proof {
        lemma_view_nodes_concat(a, b);
    }
}

/// A copy of `v` with the same model.
pub fn clone_value(v: &Value) -> (r: Value)
    ensures
        r@ == v@,
    decreases v,
{
    match v {
        Value::Int(i) => Value::Int(*i),
        Value::Float(f) => Value::Float(*f),
        Value::Bool(b) => Value::Bool(*b),
        Value::Str(s) => Value::Str(s.clone()),
        Value::List(l) => {
            proof { let ghost inner = (*v)->List_0; assert(decreases_to!(*v => inner)); }
            Value::List(clone_values(l))
        },
        Value::Range(a, b) => Value::Range(*a, *b),
        Value::Dict(m) => {
            proof { let ghost inner = (*v)->Dict_0; assert(decreases_to!(*v => inner)); }
            Value::Dict(clone_entries(m))
        },
        Value::Node(n) => {
            proof { let ghost inner = (*v)->Node_0; assert(decreases_to!(*v => inner)); }
            Value::Node(clone_nodes(n))
        },
        Value::Lambda(s) => Value::Lambda(s.clone()),
        Value::Object(s) => Value::Object(s.clone()),
        Value::Null => Value::Null,
    }
}

/// A copy of a list of values with the same model.
pub fn clone_values(l: &Vec<Value>) -> (r: Vec<Value>)
    ensures
        view_values(r@) == view_values(l@),
    decreases l,
{
    let mut out: Vec<Value> = Vec::new();
    let mut k: usize = 0;
    while k < l.len()
        invariant
            k <= l@.len(),
            view_values(out@) == view_values(l@.take(k as int)),
        decreases l@.len() - k,
    {
        proof { assert(decreases_to!(*l => l@)); assert(decreases_to!(l@ => l@[k as int])); }
        let c = clone_value(&l[k]);
        proof {
            lemma_view_values_push(out@, c);
            lemma_view_values_push(l@.take(k as int), l@[k as int]);
            assert(l@.take(k + 1) =~= l@.take(k as int).push(l@[k as int]));
        }
        out.push(c);
        k = k + 1;
    }
    assert(l@.take(l@.len() as int) =~= l@);
    out
}

/// A copy of a list of entries with the same model.
pub fn clone_entries(m: &Vec<(String, Value)>) -> (r: Vec<(String, Value)>)
    ensures
        view_entries(r@) == view_entries(m@),
    decreases m,
{
    let mut out: Vec<(String, Value)> = Vec::new();
    let mut k: usize = 0;
    while k < m.len()
        invariant
            k <= m@.len(),
            view_entries(out@) == view_entries(m@.take(k as int)),
        decreases m@.len() - k,
    {
        proof {
            assert(decreases_to!(*m => m@));
            assert(decreases_to!(m@ => m@[k as int]));
            assert(decreases_to!(m@[k as int] => m@[k as int].1));
        }
        let c = clone_value(&m[k].1);
        let e = (m[k].0.clone(), c);
        proof {
            lemma_view_entries_push(out@, e);
            lemma_view_entries_push(m@.take(k as int), m@[k as int]);
            assert(m@.take(k + 1) =~= m@.take(k as int).push(m@[k as int]));
        }
        out.push(e);
        k = k + 1;
    }
    assert(m@.take(m@.len() as int) =~= m@);
    out
}

/// A copy of a node with the same model.
pub fn clone_node(n: &ResolvedNode) -> (r: ResolvedNode)
    ensures
        r@ == n@,
    decreases n,
{
    let id = match &n.id {
        Some(s) => Some(s.clone()),
        None => None,
    };
    proof {
        assert(decreases_to!(*n => n.props));
        assert(decreases_to!(*n => n.children));
    }
    ResolvedNode {
        node_type: n.node_type.clone(),
        id,
        props: clone_entries(&n.props),
        children: clone_nodes(&n.children),
    }
}

/// A copy of a list of nodes with the same model.
pub fn clone_nodes(l: &Vec<ResolvedNode>) -> (r: Vec<ResolvedNode>)
    ensures
        view_nodes(r@) == view_nodes(l@),
    decreases l,
{
    let mut out: Vec<ResolvedNode> = Vec::new();
    let mut k: usize = 0;
    while k < l.len()
        invariant
            k <= l@.len(),
            view_nodes(out@) == view_nodes(l@.take(k as int)),
        decreases l@.len() - k,
    {
        proof { assert(decreases_to!(*l => l@)); assert(decreases_to!(l@ => l@[k as int])); }
        let c = clone_node(&l[k]);
        proof {
            lemma_view_nodes_push(out@, c);
            lemma_view_nodes_push(l@.take(k as int), l@[k as int]);
            assert(l@.take(k + 1) =~= l@.take(k as int).push(l@[k as int]));
        }
        out.push(c);
        k = k + 1;
    }
    assert(l@.take(l@.len() as int) =~= l@);
    out
}

/// Truthiness: `false` and `null` are falsy, everything else is truthy.
pub open spec fn is_truthy_spec(v: SValue) -> bool {
    match v {
        SValue::Bool(b) => b,
        SValue::Null => false,
        _ => true,
    }
}

/// The name of a value's type, as the language spells it.
pub open spec fn kind_name_spec(v: SValue) -> Seq<char> {
    match v {
        SValue::Int(_) => "Int"@,
        SValue::Float(_) => "Float"@,
        SValue::Bool(_) => "Bool"@,
        SValue::Str(_) => "String"@,
        SValue::List(_) => "List"@,
        SValue::Range(_, _) => "Range"@,
        SValue::Dict(_) => "Map"@,
        SValue::Node(_) => "Nodes"@,
        SValue::Lambda(_) => "Lambda"@,
        SValue::Object(_) => "Object"@,
        SValue::Null => "Null"@,
    }
}

impl Value {
    /// Whether the value counts as true in a condition.
    pub fn is_truthy(&self) -> (r: bool)
        ensures
            r == is_truthy_spec(self@),
    {
        match self {
            Value::Bool(b) => *b,
            Value::Null => false,
            _ => true,
        }
    }

    /// The name of the value's type (e.g. `Value::Int(_)` gives "Int").
    pub fn kind_name(&self) -> (r: &'static str)
        ensures
            r@ == kind_name_spec(self@),
    {
        match self {
            Value::Int(_) => "Int",
            Value::Float(_) => "Float",
            Value::Bool(_) => "Bool",
            Value::Str(_) => "String",
            Value::List(_) => "List",
            Value::Range(_, _) => "Range",
            Value::Dict(_) => "Map",
            Value::Node(_) => "Nodes",
            Value::Lambda(_) => "Lambda",
            Value::Object(_) => "Object",
            Value::Null => "Null",
        }
    }

    /// The integer held, if the value is an integer.
    pub fn as_int(&self) -> (r: Option<i64>)
        ensures
            r == (match self@ { SValue::Int(i) => Some(i), _ => None::<i64> }),
    {
        match self {
            Value::Int(i) => Some(*i),
            _ => None,
        }
    }

    /// The bit pattern of the float held, if the value is a float.
    pub fn as_float(&self) -> (r: Option<u64>)
        ensures
            r == (match self@ { SValue::Float(f) => Some(f), _ => None::<u64> }),
    {
        match self {
            Value::Float(f) => Some(*f),
            _ => None,
        }
    }
}

/// Type hints of the language.
#[derive(Debug, Clone, PartialEq)]
pub enum Type {
    Int,
    Float,
    Bool,
    Str,
    List,
    Dict,
    Node,
    Lambda,
    /// Stands for every type.
    Any,
    Object(String),
    Null,
}

/// Mathematical model of a [`Type`].
pub enum SType {
    Int,
    Float,
    Bool,
    Str,
    List,
    Dict,
    Node,
    Lambda,
    Any,
    Object(Seq<char>),
    Null,
}

impl View for Type {
    type V = SType;

    open spec fn view(&self) -> SType {
        match self {
            Type::Int => SType::Int,
            Type::Float => SType::Float,
            Type::Bool => SType::Bool,
            Type::Str => SType::Str,
            Type::List => SType::List,
            Type::Dict => SType::Dict,
            Type::Node => SType::Node,
            Type::Lambda => SType::Lambda,
            Type::Any => SType::Any,
            Type::Object(s) => SType::Object(s@),
            Type::Null => SType::Null,
        }
    }
}

/// The type named by a hint, if any ("String" names `Str`, "Map" names `Dict`).
pub open spec fn type_from_name(s: Seq<char>) -> Option<SType> {
    if s == "Int"@ { Some(SType::Int) }
    else if s == "Float"@ { Some(SType::Float) }
    else if s == "Bool"@ { Some(SType::Bool) }
    else if s == "String"@ { Some(SType::Str) }
    else if s == "List"@ { Some(SType::List) }
    else if s == "Map"@ { Some(SType::Dict) }
    else if s == "Node"@ { Some(SType::Node) }
    else if s == "Lambda"@ { Some(SType::Lambda) }
    else if s == "Null"@ { Some(SType::Null) }
    else { None }
}

/// Whether a value belongs to a type: `Any` holds every value, `Object(n)` the objects
/// named `n`, and each other type the values of its own variant.
pub open spec fn type_matches(t: SType, v: SValue) -> bool {
    match (t, v) {
        (SType::Any, _) => true,
        (SType::Int, SValue::Int(_)) => true,
        (SType::Float, SValue::Float(_)) => true,
        (SType::Bool, SValue::Bool(_)) => true,
        (SType::Str, SValue::Str(_)) => true,
        (SType::List, SValue::List(_)) => true,
        (SType::Dict, SValue::Dict(_)) => true,
        (SType::Node, SValue::Node(_)) => true,
        (SType::Lambda, SValue::Lambda(_)) => true,
        (SType::Object(a), SValue::Object(b)) => a == b,
        (SType::Null, SValue::Null) => true,
        _ => false,
    }
}

/// Equality of strings by their characters.
pub fn str_eq(a: &str, b: &str) -> (r: bool)
    ensures
        r == (a@ == b@),
{
    let av = crate::text::chars_of(a);
    let bv = crate::text::chars_of(b);
    if av.len() != bv.len() {
        return false;
    }
    let mut i: usize = 0;
    while i < av.len()
        invariant
            av@ == a@,
            bv@ == b@,
            av@.len() == bv@.len(),
            i <= av@.len(),
            forall|k: int| 0 <= k < i ==> av@[k] == bv@[k],
        decreases av@.len() - i,
    {
        if av[i] != bv[i] {
            return false;
        }
        i = i + 1;
    }
    assert(av@ =~= bv@);
    true
}

impl Type {
    /// Converts a type hint into a type; `None` for an unknown hint.
    pub fn from_str(s: &str) -> (r: Option<Type>)
        ensures
            match r {
                Some(t) => type_from_name(s@) == Some(t@),
                None => type_from_name(s@) is None,
            },
    {
        proof {
            reveal_strlit("Int");
            reveal_strlit("Float");
            reveal_strlit("Bool");
            reveal_strlit("String");
            reveal_strlit("List");
            reveal_strlit("Map");
            reveal_strlit("Node");
            reveal_strlit("Lambda");
            reveal_strlit("Null");
        }
        if str_eq(s, "Int") { Some(Type::Int) }
        else if str_eq(s, "Float") { Some(Type::Float) }
        else if str_eq(s, "Bool") { Some(Type::Bool) }
        else if str_eq(s, "String") { Some(Type::Str) }
        else if str_eq(s, "List") { Some(Type::List) }
        else if str_eq(s, "Map") { Some(Type::Dict) }
        else if str_eq(s, "Node") { Some(Type::Node) }
        else if str_eq(s, "Lambda") { Some(Type::Lambda) }
        else if str_eq(s, "Null") { Some(Type::Null) }
        else { None }
    }

    /// Whether `value` belongs to this type.
    pub fn matches_value(&self, value: &Value) -> (r: bool)
        ensures
            r == type_matches(self@, value@),
    {
        match (self, value) {
            (Type::Any, _) => true,
            (Type::Int, Value::Int(_)) => true,
            (Type::Float, Value::Float(_)) => true,
            (Type::Bool, Value::Bool(_)) => true,
            (Type::Str, Value::Str(_)) => true,
            (Type::List, Value::List(_)) => true,
            (Type::Dict, Value::Dict(_)) => true,
            (Type::Node, Value::Node(_)) => true,
            (Type::Lambda, Value::Lambda(_)) => true,
            (Type::Object(a), Value::Object(b)) => *a == *b,
            (Type::Null, Value::Null) => true,
            _ => false,
        }
    }

    /// A copy of the type.
    pub fn copy(&self) -> (r: Type)
        ensures
            r@ == self@,
    {
        match self {
            Type::Int => Type::Int,
            Type::Float => Type::Float,
            Type::Bool => Type::Bool,
            Type::Str => Type::Str,
            Type::List => Type::List,
            Type::Dict => Type::Dict,
            Type::Node => Type::Node,
            Type::Lambda => Type::Lambda,
            Type::Any => Type::Any,
            Type::Object(s) => Type::Object(s.clone()),
            Type::Null => Type::Null,
        }
    }
}

} // verus!
