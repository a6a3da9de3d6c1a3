//! Command identities: alias lists, the prefix set captured at build time,
//! the optional bot-identity suffix, advisory argument declarations, and a
//! typed extras store whose lookups distinguish a missing key from a value
//! of another type.

use vstd::prelude::*;

use crate::text::str_eq;
use vstd::pervasive::VecAdditionalExecFns;

verus! {

/// The shape an advisory argument declaration expects of its value.
pub enum ArgumentKind {
    Any,
    /// A textual argument expected to match the held pattern source.
    Text(String),
    Media,
    Document,
}

/// Advisory declaration of one expected argument; not enforced by the
/// matcher — enforcement is delegated to extraction failures.
pub struct Argument {
    pub name: &'static str,
    pub optional: bool,
    pub try_from_reply: bool,
    pub kind: ArgumentKind,
}

/// A named value handed to a handler invocation.
pub struct InputArgument<T> {
    pub name: &'static str,
    pub value: T,
}

impl<T> InputArgument<T> {
    pub fn new(name: &'static str, value: T) -> (r: Self)
        ensures
            r.name == name,
            r.value == value,
    {
        InputArgument { name, value }
    }
}

/// Advisory cross-argument requirement: presence, both, either, or
/// exactly one of two.
pub enum Constraint {
    Present(&'static str),
    And(Box<Constraint>, Box<Constraint>),
    Or(Box<Constraint>, Box<Constraint>),
    Xor(&'static str, &'static str),
}

impl Constraint {
    pub fn and(self, other: Constraint) -> (r: Constraint)
        ensures
            r == Constraint::And(Box::new(self), Box::new(other)),
    {
        Constraint::And(Box::new(self), Box::new(other))
    }

    pub fn or(self, other: Constraint) -> (r: Constraint)
        ensures
            r == Constraint::Or(Box::new(self), Box::new(other)),
    {
        Constraint::Or(Box::new(self), Box::new(other))
    }
}

/// A value stored under a string key in a command's extras store.
pub enum ExtraValue {
    Text(String),
    Int(i64),
    Flag(bool),
}

/// Mathematical value of an [`ExtraValue`].
pub enum ExtraValueV {
    Text(Seq<char>),
    Int(i64),
    Flag(bool),
}

impl DeepView for ExtraValue {
    type V = ExtraValueV;

    open spec fn deep_view(&self) -> ExtraValueV {
        match self {
            ExtraValue::Text(s) => ExtraValueV::Text(s@),
            ExtraValue::Int(n) => ExtraValueV::Int(*n),
            ExtraValue::Flag(b) => ExtraValueV::Flag(*b),
        }
    }
}

impl Clone for ExtraValue {
    fn clone(&self) -> (res: Self)
        ensures
            res.deep_view() == self.deep_view(),
    {
        match self {
            ExtraValue::Text(s) => ExtraValue::Text(s.clone()),
            ExtraValue::Int(n) => ExtraValue::Int(*n),
            ExtraValue::Flag(b) => ExtraValue::Flag(*b),
        }
    }
}

/// One keyed entry of the extras store.
pub struct ExtraEntry {
    pub key: String,
    pub value: ExtraValue,
}

/// Mathematical value of an [`ExtraEntry`].
pub struct ExtraEntryV {
    pub key: Seq<char>,
    pub value: ExtraValueV,
}

impl DeepView for ExtraEntry {
    type V = ExtraEntryV;

    open spec fn deep_view(&self) -> ExtraEntryV {
        ExtraEntryV { key: self.key@, value: self.value.deep_view() }
    }
}

impl Clone for ExtraEntry {
    fn clone(&self) -> (res: Self)
        ensures
            res.deep_view() == self.deep_view(),
    {
        ExtraEntry { key: self.key.clone(), value: self.value.clone() }
    }
}

/// Position of the first entry whose key is `key`, when one exists.
fn find_key_index(es: &Vec<ExtraEntry>, key: &str) -> (r: Option<usize>)
    ensures
        match r {
            Some(i) => i < es.len() && extras_index_of(es.deep_view(), key@) == i as int,
            None => extras_index_of(es.deep_view(), key@) < 0,
        },
{
    let n: usize = es.len();
    let mut i: usize = 0;
    while i < n
        invariant
            n == es.len(),
            0 <= i <= n,
            forall|m: int| 0 <= m < i ==> (#[trigger] es.deep_view()[m]).key != key@,
        decreases n - i,
    {
        if str_eq(es[i].key.as_str(), key) {
            proof {
                lemma_extras_first_hit(es.deep_view(), key@, i as int);
            }
            return Some(i);
        }
        i += 1;
    }
    proof {
        lemma_extras_index_of(es.deep_view(), key@);
    }
    None
}

/// Index of the first entry with key `k`, or `-1` when no entry has it.
pub open spec fn extras_index_of(es: Seq<ExtraEntryV>, k: Seq<char>) -> int
    decreases es.len()
{
    if es.len() == 0 {
        -1
    } else if es[0].key == k {
        0
    } else {
        let r = extras_index_of(es.drop_first(), k);
        if r < 0 {
            -1
        } else {
            r + 1
        }
    }
}

pub proof fn lemma_extras_index_of(es: Seq<ExtraEntryV>, k: Seq<char>)
    ensures
        extras_index_of(es, k) >= 0 ==> {
            &&& extras_index_of(es, k) < es.len()
            &&& es[extras_index_of(es, k)].key == k
            &&& forall|m: int| 0 <= m < extras_index_of(es, k) ==> (#[trigger] es[m]).key != k
        },
        extras_index_of(es, k) < 0 ==> forall|m: int| 0 <= m < es.len() ==> (#[trigger] es[m]).key != k,
    decreases es.len(),
{
    if es.len() > 0 && es[0].key != k {
        lemma_extras_index_of(es.drop_first(), k);
        assert forall|m: int| 1 <= m < es.len() implies es.drop_first()[m - 1] == es[m] by {}
    }
}

/// Result of a typed lookup in the extras store: the caller names the
/// expected type, and a key held at another type is reported apart from a
/// key that is absent altogether.
pub enum ExtraFind<T> {
    Value(T),
    WrongType,
    Absent,
}

/// Result of one successful command match: the accepted prefix and alias,
/// the remainder after the first whitespace run (absent when empty), the
/// whitespace-tokenized argument list, and a copy of the command that
/// matched.
pub struct CommandInput {
    pub prefix: String,
    pub cmd: String,
    pub input: Option<String>,
    pub args: Vec<String>,
    pub meta: CommandMeta,
}

/// A registered command: one or more aliases, the prefix set captured when
/// the command was built, the optional identity suffix accepted after an
/// alias, optional describing text, and the extras store.
pub struct CommandMeta {
    pub cmds: Vec<String>,
    pub prefixes: Vec<String>,
    pub identity: Option<String>,
    pub description: Option<String>,
    pub module: Option<String>,
    pub sig: Option<String>,
    pub extras: Vec<ExtraEntry>,
}

impl CommandMeta {
    /// Keys of the extras store are pairwise distinct.
    pub open spec fn extras_wf(&self) -> bool {
        forall|i: int, j: int|
            0 <= i < j < self.extras.deep_view().len() ==> (#[trigger] self.extras.deep_view()[i]).key
                != (#[trigger] self.extras.deep_view()[j]).key
    }

    /// A command always carries at least one alias and a well-formed
    /// extras store.
    pub open spec fn wf(&self) -> bool {
        &&& self.cmds.len() > 0
        &&& self.extras_wf()
    }

    /// The two commands hold the same data.
    pub open spec fn eqv(&self, other: &CommandMeta) -> bool {
        &&& self.cmds.deep_view() == other.cmds.deep_view()
        &&& self.prefixes.deep_view() == other.prefixes.deep_view()
        &&& self.identity.deep_view() == other.identity.deep_view()
        &&& self.description.deep_view() == other.description.deep_view()
        &&& self.module.deep_view() == other.module.deep_view()
        &&& self.sig.deep_view() == other.sig.deep_view()
        &&& self.extras.deep_view() == other.extras.deep_view()
    }

    /// `other` is `self` recompiled to also accept `@ident` after an alias;
    /// every other part is unchanged.
    pub open spec fn reinited(&self, ident: Seq<char>, other: &CommandMeta) -> bool {
        &&& other.cmds.deep_view() == self.cmds.deep_view()
        &&& other.prefixes.deep_view() == self.prefixes.deep_view()
        &&& other.identity.deep_view() == Some(ident)
        &&& other.description.deep_view() == self.description.deep_view()
        &&& other.module.deep_view() == self.module.deep_view()
        &&& other.sig.deep_view() == self.sig.deep_view()
        &&& other.extras.deep_view() == self.extras.deep_view()
    }

    /// Begin building a command; the prefix set starts as the single
    /// default prefix.
    pub fn builder() -> (r: CommandMetaBuilder)
        ensures
            r.wf(),
            r.cmds.deep_view() == Seq::<Seq<char>>::empty(),
            r.prefixes.deep_view() == seq!["/"@],
            r.identity.deep_view() == Option::<Seq<char>>::None,
            r.description.deep_view() == Option::<Seq<char>>::None,
            r.module.deep_view() == Option::<Seq<char>>::None,
            r.sig.deep_view() == Option::<Seq<char>>::None,
            r.extras.deep_view() == Seq::<ExtraEntryV>::empty(),
    {
        let mut prefixes: Vec<String> = Vec::new();
        prefixes.push(String::from_str("/"));
        proof {
            assert(prefixes.deep_view() =~= seq!["/"@]);
        }
        CommandMetaBuilder {
            cmds: Vec::new(),
            prefixes,
            identity: None,
            description: None,
            module: None,
            sig: None,
            extras: Vec::new(),
        }
    }

    /// Recompile the matcher so that `P + alias + '@' + bot_username` is
    /// also accepted; repeatable, and later calls replace the identity.
    pub fn reinit_regex(&mut self, bot_username: &str)
        ensures
            old(self).reinited(bot_username@, final(self)),
            old(self).wf() ==> final(self).wf(),
    {
        self.identity = Some(String::from_str(bot_username));
    }

    /// The stored value under `key`, regardless of its type.
    pub fn extra_entry(&self, key: &str) -> (r: Option<&ExtraValue>)
        ensures
            match r {
                Some(v) => {
                    &&& extras_index_of(self.extras.deep_view(), key@) >= 0
                    &&& v.deep_view() == self.extras.deep_view()[extras_index_of(
                        self.extras.deep_view(),
                        key@,
                    )].value
                },
                None => extras_index_of(self.extras.deep_view(), key@) < 0,
            },
    {
        match find_key_index(&self.extras, key) {
            Some(i) => Some(&self.extras[i].value),
            None => None,
        }
    }

    /// The text stored under `key`; `WrongType` when the key holds a value
    /// of another type, `Absent` when no entry has the key.
    pub fn extra_text(&self, key: &str) -> (r: ExtraFind<String>)
        ensures
            spec_extra_find(self.extras.deep_view(), key@, r.deep_view(), |v: ExtraValueV|
                match v {
                    ExtraValueV::Text(s) => Some(s),
                    _ => None,
                }),
    {
        match self.extra_entry(key) {
            None => ExtraFind::Absent,
            Some(ExtraValue::Text(s)) => ExtraFind::Value(s.clone()),
            Some(_) => ExtraFind::WrongType,
        }
    }

    /// The integer stored under `key`; `WrongType` when the key holds a
    /// value of another type, `Absent` when no entry has the key.
    pub fn extra_int(&self, key: &str) -> (r: ExtraFind<i64>)
        ensures
            spec_extra_find(self.extras.deep_view(), key@, r.deep_view(), |v: ExtraValueV|
                match v {
                    ExtraValueV::Int(n) => Some(n),
                    _ => None,
                }),
    {
        match self.extra_entry(key) {
            None => ExtraFind::Absent,
            Some(ExtraValue::Int(n)) => ExtraFind::Value(*n),
            Some(_) => ExtraFind::WrongType,
        }
    }

    /// The flag stored under `key`; `WrongType` when the key holds a value
    /// of another type, `Absent` when no entry has the key.
    pub fn extra_flag(&self, key: &str) -> (r: ExtraFind<bool>)
        ensures
            spec_extra_find(self.extras.deep_view(), key@, r.deep_view(), |v: ExtraValueV|
                match v {
                    ExtraValueV::Flag(b) => Some(b),
                    _ => None,
                }),
    {
        match self.extra_entry(key) {
            None => ExtraFind::Absent,
            Some(ExtraValue::Flag(b)) => ExtraFind::Value(*b),
            Some(_) => ExtraFind::WrongType,
        }
    }
}

impl<T: DeepView> DeepView for ExtraFind<T> {
    type V = ExtraFind<T::V>;

    open spec fn deep_view(&self) -> ExtraFind<T::V> {
        match self {
            ExtraFind::Value(v) => ExtraFind::Value(v.deep_view()),
            ExtraFind::WrongType => ExtraFind::WrongType,
            ExtraFind::Absent => ExtraFind::Absent,
        }
    }
}

/// How a typed lookup relates to the store: `Absent` without the key,
/// `Value` when the key holds the expected type, `WrongType` otherwise.
pub open spec fn spec_extra_find<T>(
    es: Seq<ExtraEntryV>,
    key: Seq<char>,
    r: ExtraFind<T>,
    project: spec_fn(ExtraValueV) -> Option<T>,
) -> bool {
    if extras_index_of(es, key) < 0 {
        r == ExtraFind::<T>::Absent
    } else {
        match project(es[extras_index_of(es, key)].value) {
            Some(v) => r == ExtraFind::Value(v),
            None => r == ExtraFind::<T>::WrongType,
        }
    }
}

proof fn lemma_extras_first_hit(es: Seq<ExtraEntryV>, k: Seq<char>, i: int)
    requires
        0 <= i < es.len(),
        es[i].key == k,
        forall|m: int| 0 <= m < i ==> (#[trigger] es[m]).key != k,
    ensures
        extras_index_of(es, k) == i,
    decreases es.len(),
{
    if i > 0 {
        assert(es[0].key != k);
        lemma_extras_first_hit(es.drop_first(), k, i - 1);
        assert forall|m: int| 0 <= m < es.drop_first().len() implies es.drop_first()[m] == es[m + 1] by {}
    }
}

/// Builder for a [`CommandMeta`]; `build` fails exactly when no alias was
/// supplied.
pub struct CommandMetaBuilder {
    pub cmds: Vec<String>,
    pub prefixes: Vec<String>,
    pub identity: Option<String>,
    pub description: Option<String>,
    pub module: Option<String>,
    pub sig: Option<String>,
    pub extras: Vec<ExtraEntry>,
}

impl CommandMetaBuilder {
    /// Keys of the extras store are pairwise distinct.
    pub open spec fn extras_wf(&self) -> bool {
        forall|i: int, j: int|
            0 <= i < j < self.extras.deep_view().len() ==> (#[trigger] self.extras.deep_view()[i]).key
                != (#[trigger] self.extras.deep_view()[j]).key
    }

    pub open spec fn wf(&self) -> bool {
        self.extras_wf()
    }

    /// Everything but the extras store holds the same data in both.
    pub open spec fn same_but_extras(&self, other: &CommandMetaBuilder) -> bool {
        &&& other.cmds.deep_view() == self.cmds.deep_view()
        &&& other.prefixes.deep_view() == self.prefixes.deep_view()
        &&& other.identity.deep_view() == self.identity.deep_view()
        &&& other.description.deep_view() == self.description.deep_view()
        &&& other.module.deep_view() == self.module.deep_view()
        &&& other.sig.deep_view() == self.sig.deep_view()
    }

    /// Set the alias list.
    pub fn cmds(self, cmds: Vec<String>) -> (r: Self)
        ensures
            r.cmds.deep_view() == cmds.deep_view(),
            r.prefixes.deep_view() == self.prefixes.deep_view(),
            r.identity.deep_view() == self.identity.deep_view(),
            r.description.deep_view() == self.description.deep_view(),
            r.module.deep_view() == self.module.deep_view(),
            r.sig.deep_view() == self.sig.deep_view(),
            r.extras.deep_view() == self.extras.deep_view(),
            self.wf() ==> r.wf(),
    {
        CommandMetaBuilder { cmds, ..self }
    }

    /// Replace the prefix set the matcher will accept.
    pub fn prefixes(self, prefixes: Vec<String>) -> (r: Self)
        ensures
            r.prefixes.deep_view() == prefixes.deep_view(),
            r.cmds.deep_view() == self.cmds.deep_view(),
            r.identity.deep_view() == self.identity.deep_view(),
            r.description.deep_view() == self.description.deep_view(),
            r.module.deep_view() == self.module.deep_view(),
            r.sig.deep_view() == self.sig.deep_view(),
            r.extras.deep_view() == self.extras.deep_view(),
            self.wf() ==> r.wf(),
    {
        CommandMetaBuilder { prefixes, ..self }
    }

    /// Set the describing text.
    pub fn description(self, description: &str) -> (r: Self)
        ensures
            r.description.deep_view() == Some(description@),
            r.cmds.deep_view() == self.cmds.deep_view(),
            r.prefixes.deep_view() == self.prefixes.deep_view(),
            r.identity.deep_view() == self.identity.deep_view(),
            r.module.deep_view() == self.module.deep_view(),
            r.sig.deep_view() == self.sig.deep_view(),
            r.extras.deep_view() == self.extras.deep_view(),
            self.wf() ==> r.wf(),
    {
        CommandMetaBuilder { description: Some(String::from_str(description)), ..self }
    }

    /// Set the module text.
    pub fn module(self, module: &str) -> (r: Self)
        ensures
            r.module.deep_view() == Some(module@),
            r.cmds.deep_view() == self.cmds.deep_view(),
            r.prefixes.deep_view() == self.prefixes.deep_view(),
            r.identity.deep_view() == self.identity.deep_view(),
            r.description.deep_view() == self.description.deep_view(),
            r.sig.deep_view() == self.sig.deep_view(),
            r.extras.deep_view() == self.extras.deep_view(),
            self.wf() ==> r.wf(),
    {
        CommandMetaBuilder { module: Some(String::from_str(module)), ..self }
    }

    /// Set the signature text.
    pub fn sig(self, sig: &str) -> (r: Self)
        ensures
            r.sig.deep_view() == Some(sig@),
            r.cmds.deep_view() == self.cmds.deep_view(),
            r.prefixes.deep_view() == self.prefixes.deep_view(),
            r.identity.deep_view() == self.identity.deep_view(),
            r.description.deep_view() == self.description.deep_view(),
            r.module.deep_view() == self.module.deep_view(),
            r.extras.deep_view() == self.extras.deep_view(),
            self.wf() ==> r.wf(),
    {
        CommandMetaBuilder { sig: Some(String::from_str(sig)), ..self }
    }

    /// Store `value` under `key`; an existing entry with the key is
    /// replaced, so keys stay pairwise distinct.
    pub fn extra(self, key: &str, value: ExtraValue) -> (r: Self)
        requires
            self.wf(),
        ensures
            r.wf(),
            r.cmds.deep_view() == self.cmds.deep_view(),
            r.prefixes.deep_view() == self.prefixes.deep_view(),
            r.identity.deep_view() == self.identity.deep_view(),
            r.description.deep_view() == self.description.deep_view(),
            r.module.deep_view() == self.module.deep_view(),
            r.sig.deep_view() == self.sig.deep_view(),
            extras_index_of(r.extras.deep_view(), key@) >= 0,
            r.extras.deep_view()[extras_index_of(r.extras.deep_view(), key@)].value
                == value.deep_view(),
            forall|k: Seq<char>|
                k != key@ ==> #[trigger] extras_lookup(r.extras.deep_view(), k) == extras_lookup(
                    self.extras.deep_view(),
                    k,
                ),
    {
        let mut b = self;
        let ghost pre = b.extras.deep_view();
        let hit: Option<usize> = find_key_index(&b.extras, key);
        match hit {
            Some(i) => {
                proof {
                    lemma_extras_index_of(pre, key@);
                }
                b.extras.set(i, ExtraEntry { key: String::from_str(key), value });
                proof {
                    let post = b.extras.deep_view();
                    assert(post =~= pre.update(
                        i as int,
                        ExtraEntryV { key: key@, value: value.deep_view() },
                    ));
                    assert(pre[i as int].key == key@);
                    assert(forall|m: int|
                        0 <= m < pre.len() ==> (#[trigger] post[m]).key == (#[trigger] pre[m]).key);
                    lemma_extras_first_hit(post, key@, i as int);
                    assert forall|k: Seq<char>| k != key@ implies #[trigger] extras_lookup(post, k)
                        == extras_lookup(pre, k) by {
                        lemma_extras_index_agrees(pre, post, k);
                    }
                }
            },
            None => {
                proof {
                    lemma_extras_index_of(pre, key@);
                }
                b.extras.push(ExtraEntry { key: String::from_str(key), value });
                proof {
                    let post = b.extras.deep_view();
                    let e = ExtraEntryV { key: key@, value: value.deep_view() };
                    assert(post =~= pre.push(e));
                    assert(forall|m: int| 0 <= m < pre.len() ==> #[trigger] post[m] == pre[m]);
                    assert forall|p: int, q: int| 0 <= p < q < post.len() implies (
                    #[trigger] post[p]).key != (#[trigger] post[q]).key by {
                        if q == pre.len() {
                            assert(post[p].key != key@);
                        }
                    }
                    lemma_extras_first_hit(post, key@, pre.len() as int);
                    assert forall|k: Seq<char>| k != key@ implies #[trigger] extras_lookup(post, k)
                        == extras_lookup(pre, k) by {
                        lemma_extras_push_other(pre, e, k);
                    }
                }
            },
        }
        b
    }

    /// Finish the build; fails exactly when the alias list is empty, the
    /// one construction-time error.
    pub fn build(self) -> (r: Option<CommandMeta>)
        requires
            self.wf(),
        ensures
            match r {
                Some(m) => {
                    &&& self.cmds.deep_view().len() > 0
                    &&& m.wf()
                    &&& m.cmds.deep_view() == self.cmds.deep_view()
                    &&& m.prefixes.deep_view() == self.prefixes.deep_view()
                    &&& m.identity.deep_view() == self.identity.deep_view()
                    &&& m.description.deep_view() == self.description.deep_view()
                    &&& m.module.deep_view() == self.module.deep_view()
                    &&& m.sig.deep_view() == self.sig.deep_view()
                    &&& m.extras.deep_view() == self.extras.deep_view()
                },
                None => self.cmds.deep_view().len() == 0,
            },
    {
        if self.cmds.len() == 0 {
            return None;
        }
        Some(
            CommandMeta {
                cmds: self.cmds,
                prefixes: self.prefixes,
                identity: self.identity,
                description: self.description,
                module: self.module,
                sig: self.sig,
                extras: self.extras,
            },
        )
    }
}

impl Clone for CommandMeta {
    fn clone(&self) -> (res: Self)
        ensures
            res.eqv(self),
            res.wf() == self.wf(),
    {
        let res = CommandMeta {
            cmds: clone_string_vec(&self.cmds),
            prefixes: clone_string_vec(&self.prefixes),
            identity: clone_string_opt(&self.identity),
            description: clone_string_opt(&self.description),
            module: clone_string_opt(&self.module),
            sig: clone_string_opt(&self.sig),
            extras: clone_extras(&self.extras),
        };
        res
    }
}

impl Clone for CommandInput {
    fn clone(&self) -> (res: Self)
        ensures
            res.prefix@ == self.prefix@,
            res.cmd@ == self.cmd@,
            res.input.deep_view() == self.input.deep_view(),
            res.args.deep_view() == self.args.deep_view(),
            res.meta.eqv(&self.meta),
            res.meta.wf() == self.meta.wf(),
    {
        CommandInput {
            prefix: self.prefix.clone(),
            cmd: self.cmd.clone(),
            input: clone_string_opt(&self.input),
            args: clone_string_vec(&self.args),
            meta: self.meta.clone(),
        }
    }
}

/// Element-by-element copy of a string list.
fn clone_string_vec(v: &Vec<String>) -> (r: Vec<String>)
    ensures
        r@ == v@,
        r.deep_view() == v.deep_view(),
{
    let mut r: Vec<String> = Vec::new();
    let n: usize = v.len();
    let mut i: usize = 0;
    proof {
        assert(r@ =~= v@.subrange(0, 0));
    }
    while i < n
        invariant
            n == v.len(),
            0 <= i <= n,
            r@ == v@.subrange(0, i as int),
        decreases n - i,
    {
        r.push(v[i].clone());
        proof {
            assert(r@ =~= v@.subrange(0, i as int + 1));
        }
        i += 1;
    }
    proof {
        assert(r@ =~= v@);
        assert(r.deep_view() =~= v.deep_view());
    }
    r
}

/// Copy of an optional string.
fn clone_string_opt(v: &Option<String>) -> (r: Option<String>)
    ensures
        r == *v,
        r.deep_view() == v.deep_view(),
{
    match v {
        Some(s) => Some(s.clone()),
        None => None,
    }
}

/// Element-by-element copy of an extras store.
fn clone_extras(v: &Vec<ExtraEntry>) -> (r: Vec<ExtraEntry>)
    ensures
        r.deep_view() == v.deep_view(),
{
    let mut r: Vec<ExtraEntry> = Vec::new();
    let n: usize = v.len();
    let mut i: usize = 0;
    while i < n
        invariant
            n == v.len(),
            0 <= i <= n,
            r@.len() == i,
            forall|k: int| 0 <= k < i ==> (#[trigger] r@[k]).deep_view() == v@[k].deep_view(),
        decreases n - i,
    {
        let e = v[i].clone();
        r.push(e);
        i += 1;
    }
    proof {
        assert forall|k: int| 0 <= k < v@.len() implies r.deep_view()[k] == v.deep_view()[k] by {
            assert(r.deep_view()[k] == r@[k].deep_view());
            assert(v.deep_view()[k] == v@[k].deep_view());
        }
        assert(r.deep_view() =~= v.deep_view());
    }
    r
}

/// The value stored under `k`, when an entry has that key.
pub open spec fn extras_lookup(es: Seq<ExtraEntryV>, k: Seq<char>) -> Option<ExtraValueV> {
    if extras_index_of(es, k) >= 0 {
        Some(es[extras_index_of(es, k)].value)
    } else {
        None
    }
}

/// Lookups of `k` agree when both stores pair the same keys in the same
/// order and hold the same value wherever the key is `k`.
proof fn lemma_extras_index_agrees(pre: Seq<ExtraEntryV>, post: Seq<ExtraEntryV>, k: Seq<char>)
    requires
        pre.len() == post.len(),
        forall|m: int| 0 <= m < pre.len() ==> (#[trigger] post[m]).key == (#[trigger] pre[m]).key,
        forall|m: int| 0 <= m < pre.len() && (#[trigger] pre[m]).key == k ==> post[m].value == pre[m].value,
    ensures
        extras_lookup(post, k) == extras_lookup(pre, k),
    decreases pre.len(),
{
    lemma_extras_index_of(pre, k);
    lemma_extras_index_of(post, k);
    if extras_index_of(pre, k) >= 0 {
        let i = extras_index_of(pre, k);
        assert(post[i].key == pre[i].key);
        assert forall|m: int| 0 <= m < i implies (#[trigger] post[m]).key != k by {
            assert(pre[m].key != k);
        }
        lemma_extras_first_hit(post, k, i);
        assert(pre[i].key == k);
    } else {
        assert forall|m: int| 0 <= m < post.len() implies (#[trigger] post[m]).key != k by {
            assert(pre[m].key != k);
        }
        if extras_index_of(post, k) >= 0 {
            assert(post[extras_index_of(post, k)].key == k);
        }
    }
}

proof fn lemma_extras_push_other(pre: Seq<ExtraEntryV>, e: ExtraEntryV, k: Seq<char>)
    requires
        k != e.key,
    ensures
        extras_lookup(pre.push(e), k) == extras_lookup(pre, k),
{
    lemma_extras_index_of(pre, k);
    lemma_extras_index_of(pre.push(e), k);
    if extras_index_of(pre, k) >= 0 {
        lemma_extras_first_hit(pre.push(e), k, extras_index_of(pre, k));
    } else {
        assert forall|m: int| 0 <= m < pre.push(e).len() implies (#[trigger] pre.push(e)[m]).key != k by {
            if m < pre.len() {
                assert(pre.push(e)[m] == pre[m]);
            }
        }
        if extras_index_of(pre.push(e), k) >= 0 {
            assert(pre.push(e)[extras_index_of(pre.push(e), k)].key == k);
        }
    }
}

} // verus!
