//! llama-server parameters: the catalog of known parameters, the user's
//! choice for each (enabled or not, and its value), and the command-line
//! arguments that the choice gives.
//!
//! A value is held as the text that goes on the command line: a JSON string
//! as its contents, any other JSON value as its JSON text.

use vstd::prelude::*;

use crate::text::{chars_eq, to_chars};

verus! {

/// How a parameter is edited and passed.
#[derive(Clone, Copy, Debug, PartialEq, Eq, Structural)]
pub enum ParamKind {
    Bool,
    Int,
    Float,
    Enum,
    String,
    Path,
}

/// A parameter value.
#[derive(Clone, Debug, PartialEq, Eq)]
pub enum ParamValue {
    /// A JSON string: its contents.
    Text(String),
    /// Any other JSON value (number, boolean, null, array, object): its JSON
    /// text.
    Json(String),
}

/// A parameter value, in contracts.
pub enum ValueModel {
    Text(Seq<char>),
    Json(Seq<char>),
}

impl View for ParamValue {
    type V = ValueModel;

    open spec fn view(&self) -> ValueModel {
        match self {
            ParamValue::Text(s) => ValueModel::Text(s@),
            ParamValue::Json(s) => ValueModel::Json(s@),
        }
    }
}

pub open spec fn opt_value_view(v: Option<ParamValue>) -> Option<ValueModel> {
    match v {
        Some(x) => Some(x@),
        None => None,
    }
}

/// The text of a value on the command line.
pub open spec fn value_text(v: ValueModel) -> Seq<char> {
    match v {
        ValueModel::Text(s) => s,
        ValueModel::Json(s) => s,
    }
}

/// A copy of a value.
pub fn copy_value(v: &ParamValue) -> (r: ParamValue)
    ensures
        r@ == v@,
{
    match v {
        ParamValue::Text(s) => ParamValue::Text(s.clone()),
        ParamValue::Json(s) => ParamValue::Json(s.clone()),
    }
}

fn copy_opt_value(v: &Option<ParamValue>) -> (r: Option<ParamValue>)
    ensures
        opt_value_view(r) == opt_value_view(*v),
{
    match v {
        Some(x) => Some(copy_value(x)),
        None => None,
    }
}

/// One parameter of the catalog, with what the logic reads of it.
#[derive(Clone, Debug)]
pub struct ParamDef {
    pub id: String,
    /// The command-line flag, such as `--ctx-size`.
    pub flag: String,
    pub name: String,
    pub category: String,
    pub kind: ParamKind,
    pub default: Option<ParamValue>,
    pub options: Vec<String>,
    /// Whether the parameter starts enabled.
    pub enabled_default: bool,
}

pub struct DefModel {
    pub id: Seq<char>,
    pub flag: Seq<char>,
    pub name: Seq<char>,
    pub category: Seq<char>,
    pub kind: ParamKind,
    pub default: Option<ValueModel>,
    pub options: Seq<Seq<char>>,
    pub enabled_default: bool,
}

impl View for ParamDef {
    type V = DefModel;

    open spec fn view(&self) -> DefModel {
        DefModel {
            id: self.id@,
            flag: self.flag@,
            name: self.name@,
            category: self.category@,
            kind: self.kind,
            default: opt_value_view(self.default),
            options: self.options@.map_values(|o: String| o@),
            enabled_default: self.enabled_default,
        }
    }
}

/// The parameter catalog.
#[derive(Clone, Debug)]
pub struct ParamsCatalog {
    pub version: u32,
    pub updated_at: String,
    pub source: String,
    pub params: Vec<ParamDef>,
}

pub open spec fn defs_view(params: Seq<ParamDef>) -> Seq<DefModel> {
    params.map_values(|d: ParamDef| d@)
}

/// The user's choice for one parameter.
#[derive(Clone, Debug, PartialEq, Eq)]
pub struct ParamEntry {
    pub enabled: bool,
    pub value: Option<ParamValue>,
}

pub struct EntryModel {
    pub enabled: bool,
    pub value: Option<ValueModel>,
}

impl View for ParamEntry {
    type V = EntryModel;

    open spec fn view(&self) -> EntryModel {
        EntryModel { enabled: self.enabled, value: opt_value_view(self.value) }
    }
}

/// The entry a parameter starts with: enabled as the catalog says, with the
/// catalog's default value.
pub open spec fn default_entry(d: DefModel) -> EntryModel {
    EntryModel { enabled: d.enabled_default, value: d.default }
}

/// The entry a missing parameter is created with before it is changed:
/// disabled and without a value.
pub open spec fn blank_entry() -> EntryModel {
    EntryModel { enabled: false, value: None }
}

/// Entries by parameter id; a later pair for the same id replaces an
/// earlier one.
pub open spec fn pairs_map(s: Seq<(Seq<char>, EntryModel)>) -> Map<Seq<char>, EntryModel>
    decreases s.len(),
{
    if s.len() == 0 {
        Map::empty()
    } else {
        pairs_map(s.drop_last()).insert(s.last().0, s.last().1)
    }
}

pub open spec fn pairs_view(s: Seq<(String, ParamEntry)>) -> Seq<(Seq<char>, EntryModel)> {
    s.map_values(|p: (String, ParamEntry)| (p.0@, p.1@))
}

/// The user's choices, by parameter id. Parameters without an entry are
/// off.
pub struct ParamState {
    entries: Vec<(String, ParamEntry)>,
}

impl View for ParamState {
    type V = Map<Seq<char>, EntryModel>;

    closed spec fn view(&self) -> Map<Seq<char>, EntryModel> {
        pairs_map(pairs_view(self.entries@))
    }
}

/// Whether a parameter is enabled in the choices `m`.
pub open spec fn enabled_in(m: Map<Seq<char>, EntryModel>, id: Seq<char>) -> bool {
    m.dom().contains(id) && m[id].enabled
}

/// The choices after turning `id` on or off: its entry (a blank one when
/// it had none) with the new flag.
pub open spec fn set_enabled_spec(m: Map<Seq<char>, EntryModel>, id: Seq<char>, enabled: bool) -> Map<
    Seq<char>,
    EntryModel,
> {
    let old_entry = if m.dom().contains(id) {
        m[id]
    } else {
        blank_entry()
    };
    m.insert(id, EntryModel { enabled, ..old_entry })
}

/// The choices after giving `id` a value: its entry (a blank one when it
/// had none) with the new value.
pub open spec fn set_value_spec(m: Map<Seq<char>, EntryModel>, id: Seq<char>, value: ValueModel) -> Map<
    Seq<char>,
    EntryModel,
> {
    let old_entry = if m.dom().contains(id) {
        m[id]
    } else {
        blank_entry()
    };
    m.insert(id, EntryModel { value: Some(value), ..old_entry })
}

/// The choices with the catalog's default entry added for every parameter
/// that has none, in catalog order (a parameter listed twice gets the first
/// of its defaults).
pub open spec fn merged_spec(m: Map<Seq<char>, EntryModel>, defs: Seq<DefModel>) -> Map<
    Seq<char>,
    EntryModel,
>
    decreases defs.len(),
{
    if defs.len() == 0 {
        m
    } else {
        let before = merged_spec(m, defs.drop_last());
        let d = defs.last();
        if before.dom().contains(d.id) {
            before
        } else {
            before.insert(d.id, default_entry(d))
        }
    }
}

/// The choices made from the catalog's defaults alone: the default entry of
/// every parameter (of the last one, for an id listed twice).
pub open spec fn from_catalog_spec(defs: Seq<DefModel>) -> Map<Seq<char>, EntryModel>
    decreases defs.len(),
{
    if defs.len() == 0 {
        Map::empty()
    } else {
        from_catalog_spec(defs.drop_last()).insert(defs.last().id, default_entry(defs.last()))
    }
}

/// The arguments one parameter adds: nothing when it has no entry or is
/// off; a boolean parameter adds its flag; any other adds its flag and the
/// text of its value (the chosen one, else the catalog's default), or
/// nothing when it has neither.
pub open spec fn def_args(d: DefModel, m: Map<Seq<char>, EntryModel>) -> Seq<Seq<char>> {
    if !enabled_in(m, d.id) {
        seq![]
    } else if d.kind == ParamKind::Bool {
        seq![d.flag]
    } else {
        let value = match m[d.id].value {
            Some(v) => Some(v),
            None => d.default,
        };
        match value {
            Some(v) => seq![d.flag, value_text(v)],
            None => seq![],
        }
    }
}

/// The command-line arguments of the choices `m`, parameter after parameter
/// in catalog order.
pub open spec fn args_spec(defs: Seq<DefModel>, m: Map<Seq<char>, EntryModel>) -> Seq<Seq<char>>
    decreases defs.len(),
{
    if defs.len() == 0 {
        seq![]
    } else {
        args_spec(defs.drop_last(), m) + def_args(defs.last(), m)
    }
}

proof fn lemma_pairs_push(s: Seq<(Seq<char>, EntryModel)>, k: Seq<char>, e: EntryModel)
    ensures
        pairs_map(s.push((k, e))) == pairs_map(s).insert(k, e),
{
    assert(s.push((k, e)).drop_last() =~= s);
}

/// Replacing the last pair for `k` replaces the entry of `k`.
proof fn lemma_pairs_update_last(s: Seq<(Seq<char>, EntryModel)>, i: int, k: Seq<char>, e: EntryModel)
    requires
        0 <= i < s.len(),
        s[i].0 == k,
        forall|j: int| i < j < s.len() ==> s[j].0 != k,
    ensures
        pairs_map(s.update(i, (k, e))) == pairs_map(s).insert(k, e),
    decreases s.len(),
{
    let t = s.update(i, (k, e));
    if i == s.len() - 1 {
        assert(t.drop_last() =~= s.drop_last());
        assert(pairs_map(t) =~= pairs_map(s).insert(k, e));
    } else {
        lemma_pairs_update_last(s.drop_last(), i, k, e);
        assert(t.drop_last() =~= s.drop_last().update(i, (k, e)));
        assert(t.last() == s.last());
        assert(s.last().0 != k);
        assert(pairs_map(t) =~= pairs_map(s).insert(k, e));
    }
}

/// The entry of `k` comes from its last pair; without a pair, `k` has no
/// entry.
proof fn lemma_pairs_lookup(s: Seq<(Seq<char>, EntryModel)>, k: Seq<char>, i: int)
    requires
        -1 <= i < s.len(),
        i >= 0 ==> s[i].0 == k,
        forall|j: int| i < j < s.len() ==> s[j].0 != k,
    ensures
        i >= 0 ==> pairs_map(s).dom().contains(k) && pairs_map(s)[k] == s[i].1,
        i < 0 ==> !pairs_map(s).dom().contains(k),
    decreases s.len(),
{
    if s.len() > 0 {
        if i == s.len() - 1 {
        } else {
            lemma_pairs_lookup(s.drop_last(), k, i);
        }
    }
}

/// No parameter id occurs twice among the pairs.
pub open spec fn distinct_ids(s: Seq<(String, ParamEntry)>) -> bool {
    forall|i: int, j: int| 0 <= i < j < s.len() ==> (#[trigger] s[i]).0@ != (#[trigger] s[j]).0@
}

impl ParamState {
    /// Each parameter has at most one pair.
    #[verifier::type_invariant]
    spec fn ids_distinct(self) -> bool {
        distinct_ids(self.entries@)
    }

    /// No choices made.
    pub fn new() -> (r: Self)
        ensures
            r@ == Map::<Seq<char>, EntryModel>::empty(),
    {
        ParamState { entries: Vec::new() }
    }

    /// Index of the last pair for `id`, if any.
    fn position(&self, id: &str) -> (r: Option<usize>)
        ensures
            match r {
                Some(i) => i < self.entries@.len() && self.entries@[i as int].0@ == id@ && forall|j: int|
                    i < j < self.entries@.len() ==> self.entries@[j].0@ != id@,
                None => forall|j: int| 0 <= j < self.entries@.len() ==> self.entries@[j].0@ != id@,
            },
    {
        let key = to_chars(id);
        let mut i: usize = self.entries.len();
        while i > 0
            invariant
                i <= self.entries@.len(),
                key@ == id@,
                forall|j: int| i <= j < self.entries@.len() ==> self.entries@[j].0@ != id@,
            decreases i,
        {
            i -= 1;
            if chars_eq(&to_chars(self.entries[i].0.as_str()), &key) {
                return Some(i);
            }
        }
        None
    }

    /// The entry of a parameter, if it has one.
    pub fn get(&self, id: &str) -> (r: Option<&ParamEntry>)
        ensures
            match r {
                Some(e) => self@.dom().contains(id@) && e@ == self@[id@],
                None => !self@.dom().contains(id@),
            },
    {
        let ghost pv = pairs_view(self.entries@);
        match self.position(id) {
            Some(i) => {
                proof {
                    assert forall|j: int| i < j < pv.len() implies pv[j].0 != id@ by {
                        assert(pv[j].0 == self.entries@[j].0@);
                    }
                    lemma_pairs_lookup(pv, id@, i as int);
                }
                Some(&self.entries[i].1)
            },
            None => {
                proof {
                    assert forall|j: int| -1 < j < pv.len() implies pv[j].0 != id@ by {
                        assert(pv[j].0 == self.entries@[j].0@);
                    }
                    lemma_pairs_lookup(pv, id@, -1);
                }
                None
            },
        }
    }

    /// The entries as (id, entry) pairs, one pair per id.
    pub fn entries(&self) -> (r: &[(String, ParamEntry)])
        ensures
            pairs_map(pairs_view(r@)) == self@,
            distinct_ids(r@),
    {
        proof {
            use_type_invariant(self);
        }
        self.entries.as_slice()
    }

    /// Whether a parameter is enabled; one without an entry is not.
    pub fn is_enabled(&self, id: &str) -> (r: bool)
        ensures
            r == enabled_in(self@, id@),
    {
        match self.get(id) {
            Some(e) => e.enabled,
            None => false,
        }
    }

    /// Replaces (or adds) the entry of `id`.
    fn put(&mut self, id: &str, entry: ParamEntry)
        ensures
            final(self)@ == old(self)@.insert(id@, entry@),
    {
        proof {
            use_type_invariant(&*self);
        }
        let ghost pv = pairs_view(self.entries@);
        let ghost old_entries = self.entries@;
        let key = crate::text::from_chars(&to_chars(id));
        let found = self.position(id);
        let mut entries: Vec<(String, ParamEntry)> = Vec::new();
        std::mem::swap(&mut entries, &mut self.entries);
        assert(entries@ == old_entries);
        match found {
            Some(i) => {
                proof {
                    assert forall|j: int| i < j < pv.len() implies pv[j].0 != id@ by {
                        assert(pv[j].0 == old_entries[j].0@);
                    }
                    lemma_pairs_update_last(pv, i as int, id@, entry@);
                }
                entries.set(i, (key, entry));
                assert(pairs_view(entries@) =~= pv.update(i as int, (id@, entry@)));
                assert forall|a: int, b: int| 0 <= a < b < entries@.len() implies (#[trigger] entries@[a]).0@
                    != (#[trigger] entries@[b]).0@ by {
                    if a != i && b != i {
                        assert(old_entries[a] == entries@[a] && old_entries[b] == entries@[b]);
                    } else if a == i {
                        assert(old_entries[b] == entries@[b]);
                        assert(old_entries[i as int].0@ == id@);
                    } else {
                        assert(old_entries[a] == entries@[a]);
                        assert(old_entries[i as int].0@ == id@);
                    }
                }
            },
            None => {
                entries.push((key, entry));
                proof {
                    lemma_pairs_push(pv, id@, entry@);
                }
                assert(pairs_view(entries@) =~= pv.push((id@, entry@)));
                assert forall|a: int, b: int| 0 <= a < b < entries@.len() implies (#[trigger] entries@[a]).0@
                    != (#[trigger] entries@[b]).0@ by {
                    assert(old_entries.len() + 1 == entries@.len());
                    if b < old_entries.len() {
                        assert(old_entries[a] == entries@[a] && old_entries[b] == entries@[b]);
                    } else {
                        assert(old_entries[a] == entries@[a]);
                    }
                }
            },
        }
        self.entries = entries;
    }

    /// Turns a parameter on or off (see [`set_enabled_spec`]).
    pub fn set(&mut self, id: &str, enabled: bool)
        ensures
            final(self)@ == set_enabled_spec(old(self)@, id@, enabled),
    {
        let value = match self.get(id) {
            Some(e) => copy_opt_value(&e.value),
            None => None,
        };
        self.put(id, ParamEntry { enabled, value });
    }

    /// Gives a parameter a value (see [`set_value_spec`]).
    pub fn set_value(&mut self, id: &str, value: ParamValue)
        ensures
            final(self)@ == set_value_spec(old(self)@, id@, value@),
    {
        let enabled = match self.get(id) {
            Some(e) => e.enabled,
            None => false,
        };
        self.put(id, ParamEntry { enabled, value: Some(value) });
    }

    /// Choices from the catalog's defaults (see [`from_catalog_spec`]).
    pub fn from_catalog(catalog: &ParamsCatalog) -> (r: Self)
        ensures
            r@ == from_catalog_spec(defs_view(catalog.params@)),
    {
        let ghost defs = defs_view(catalog.params@);
        let mut state = ParamState::new();
        let mut i: usize = 0;
        assert(defs.take(0) =~= Seq::<DefModel>::empty());
        while i < catalog.params.len()
            invariant
                i <= catalog.params@.len(),
                defs == defs_view(catalog.params@),
                state@ == from_catalog_spec(defs.take(i as int)),
            decreases catalog.params@.len() - i,
        {
            let d = &catalog.params[i];
            assert(defs.take(i + 1).drop_last() =~= defs.take(i as int));
            assert(defs.take(i + 1).last() == d@);
            state.put(d.id.as_str(), ParamEntry { enabled: d.enabled_default, value: copy_opt_value(&d.default) });
            i += 1;
        }
        assert(defs.take(catalog.params@.len() as int) =~= defs);
        state
    }

    /// Adds the catalog's default entry for every parameter without one
    /// (see [`merged_spec`]); existing entries are kept as they are.
    pub fn merge_defaults(&mut self, catalog: &ParamsCatalog)
        ensures
            final(self)@ == merged_spec(old(self)@, defs_view(catalog.params@)),
    {
        let ghost defs = defs_view(catalog.params@);
        let ghost start = self@;
        let mut i: usize = 0;
        assert(defs.take(0) =~= Seq::<DefModel>::empty());
        while i < catalog.params.len()
            invariant
                i <= catalog.params@.len(),
                defs == defs_view(catalog.params@),
                start == old(self)@,
                self@ == merged_spec(start, defs.take(i as int)),
            decreases catalog.params@.len() - i,
        {
            let d = &catalog.params[i];
            assert(defs.take(i + 1).drop_last() =~= defs.take(i as int));
            assert(defs.take(i + 1).last() == d@);
            if self.get(d.id.as_str()).is_none() {
                self.put(d.id.as_str(), ParamEntry { enabled: d.enabled_default, value: copy_opt_value(&d.default) });
            }
            i += 1;
        }
        assert(defs.take(catalog.params@.len() as int) =~= defs);
    }
}

/// The command-line arguments of the enabled parameters, in catalog order
/// (see [`args_spec`]).
pub fn to_args(catalog: &ParamsCatalog, state: &ParamState) -> (r: Vec<String>)
    ensures
        r@.map_values(|a: String| a@) == args_spec(defs_view(catalog.params@), state@),
{
    let ghost defs = defs_view(catalog.params@);
    let mut args: Vec<String> = Vec::new();
    let mut i: usize = 0;
    assert(defs.take(0) =~= Seq::<DefModel>::empty());
    assert(args@.map_values(|a: String| a@) =~= Seq::<Seq<char>>::empty());
    while i < catalog.params.len()
        invariant
            i <= catalog.params@.len(),
            defs == defs_view(catalog.params@),
            args@.map_values(|a: String| a@) == args_spec(defs.take(i as int), state@),
        decreases catalog.params@.len() - i,
    {
        let d = &catalog.params[i];
        let ghost before = args@.map_values(|a: String| a@);
        assert(defs.take(i + 1).drop_last() =~= defs.take(i as int));
        assert(defs.take(i + 1).last() == d@);
        let ghost piece = def_args(d@, state@);
        match state.get(d.id.as_str()) {
            None => {
                assert(piece =~= Seq::<Seq<char>>::empty());
                assert(before + piece =~= before);
            },
            Some(entry) => {
                if !entry.enabled {
                    assert(piece =~= Seq::<Seq<char>>::empty());
                    assert(before + piece =~= before);
                } else if d.kind == ParamKind::Bool {
                    args.push(d.flag.clone());
                    assert(args@.map_values(|a: String| a@) =~= before + piece);
                } else {
                    let value = match &entry.value {
                        Some(v) => Some(v),
                        None => d.default.as_ref(),
                    };
                    match value {
                        Some(v) => {
                            let text = match v {
                                ParamValue::Text(s) => s.clone(),
                                ParamValue::Json(s) => s.clone(),
                            };
                            args.push(d.flag.clone());
                            args.push(text);
                            assert(args@.map_values(|a: String| a@) =~= before + piece);
                        },
                        None => {
                            assert(piece =~= Seq::<Seq<char>>::empty());
                            assert(before + piece =~= before);
                        },
                    }
                }
            },
        }
        i += 1;
    }
    assert(defs.take(catalog.params@.len() as int) =~= defs);
    args
}

/// Categories known in advance, in display order: id and title.
pub open spec fn known_categories() -> Seq<(Seq<char>, Seq<char>)> {
    seq![
        ("context"@, "Модель и контекст"@),
        ("gpu"@, "GPU и разгрузка"@),
        ("kv"@, "Память и KV-кэш"@),
        ("spec"@, "Спекулятивный декодинг (draft)"@),
        ("sampling"@, "Сэмплинг"@),
        ("server"@, "HTTP-сервер"@),
    ]
}

pub open spec fn has_category(cs: Seq<(Seq<char>, Seq<char>)>, id: Seq<char>) -> bool {
    exists|i: int| 0 <= i < cs.len() && #[trigger] cs[i].0 == id
}

/// The categories to show: the known ones in their order, then every other
/// category of the catalog once, in order of first appearance, titled
/// `(другое)`.
pub open spec fn categories_spec(defs: Seq<DefModel>) -> Seq<(Seq<char>, Seq<char>)>
    decreases defs.len(),
{
    if defs.len() == 0 {
        known_categories()
    } else {
        let before = categories_spec(defs.drop_last());
        let c = defs.last().category;
        if has_category(before, c) {
            before
        } else {
            before.push((c, "(другое)"@))
        }
    }
}

pub open spec fn string_pairs_view(s: Seq<(String, String)>) -> Seq<(Seq<char>, Seq<char>)> {
    s.map_values(|p: (String, String)| (p.0@, p.1@))
}

fn push_pair(out: &mut Vec<(String, String)>, a: &str, b: &str)
    ensures
        string_pairs_view(final(out)@) == string_pairs_view(old(out)@).push((a@, b@)),
{
    let ghost before = string_pairs_view(out@);
    out.push((crate::text::from_chars(&to_chars(a)), crate::text::from_chars(&to_chars(b))));
    assert(string_pairs_view(out@) =~= before.push((a@, b@)));
}

impl ParamsCatalog {
    /// The categories to show (see [`categories_spec`]).
    pub fn categories(&self) -> (r: Vec<(String, String)>)
        ensures
            string_pairs_view(r@) == categories_spec(defs_view(self.params@)),
    {
        let mut out: Vec<(String, String)> = Vec::new();
        push_pair(&mut out, "context", "Модель и контекст");
        push_pair(&mut out, "gpu", "GPU и разгрузка");
        push_pair(&mut out, "kv", "Память и KV-кэш");
        push_pair(&mut out, "spec", "Спекулятивный декодинг (draft)");
        push_pair(&mut out, "sampling", "Сэмплинг");
        push_pair(&mut out, "server", "HTTP-сервер");
        let ghost defs = defs_view(self.params@);
        assert(string_pairs_view(out@) =~= known_categories());
        assert(defs.take(0) =~= Seq::<DefModel>::empty());
        let mut i: usize = 0;
        while i < self.params.len()
            invariant
                i <= self.params@.len(),
                defs == defs_view(self.params@),
                string_pairs_view(out@) == categories_spec(defs.take(i as int)),
            decreases self.params@.len() - i,
        {
            let ghost cs = string_pairs_view(out@);
            assert(defs.take(i + 1).drop_last() =~= defs.take(i as int));
            assert(defs.take(i + 1).last() == self.params@[i as int]@);
            let cat = to_chars(self.params[i].category.as_str());
            let mut found = false;
            let mut k: usize = 0;
            while k < out.len()
                invariant
                    k <= out@.len(),
                    cs == string_pairs_view(out@),
                    cat@ == self.params@[i as int].category@,
                    found == exists|j: int| 0 <= j < k && #[trigger] cs[j].0 == cat@,
                decreases out@.len() - k,
            {
                if chars_eq(&to_chars(out[k].0.as_str()), &cat) {
                    found = true;
                }
                proof {
                    if found && !(exists|j: int| 0 <= j < k && #[trigger] cs[j].0 == cat@) {
                        assert(cs[k as int].0 == cat@);
                    }
                }
                k += 1;
            }
            if !found {
                push_pair(&mut out, self.params[i].category.as_str(), "(другое)");
            }
            i += 1;
        }
        assert(defs.take(self.params@.len() as int) =~= defs);
        out
    }
}

// ---------------------------------------------------------------------------
// Checks of the values
// ---------------------------------------------------------------------------

/// The outcome of checking one parameter's value.
#[derive(Clone, Debug, PartialEq, Eq)]
pub enum ValueCheck {
    /// Nothing to report.
    Fine,
    /// A problem, described for the user.
    Problem(String),
    /// A numeric parameter: its value must be a number within the catalog's
    /// bounds, which the caller checks.
    CheckNumber(ParamValue),
}

pub enum CheckModel {
    Fine,
    Problem(Seq<char>),
    CheckNumber(ValueModel),
}

impl View for ValueCheck {
    type V = CheckModel;

    open spec fn view(&self) -> CheckModel {
        match self {
            ValueCheck::Fine => CheckModel::Fine,
            ValueCheck::Problem(p) => CheckModel::Problem(p@),
            ValueCheck::CheckNumber(v) => CheckModel::CheckNumber(v@),
        }
    }
}

/// The texts joined with `, `.
pub open spec fn join_comma(xs: Seq<Seq<char>>) -> Seq<char>
    decreases xs.len(),
{
    if xs.len() == 0 {
        seq![]
    } else if xs.len() == 1 {
        xs[0]
    } else {
        join_comma(xs.drop_last()) + ", "@ + xs.last()
    }
}

/// The text of an enumerated value: the contents of a string, else empty.
pub open spec fn enum_text(v: ValueModel) -> Seq<char> {
    match v {
        ValueModel::Text(s) => s,
        ValueModel::Json(_) => seq![],
    }
}

/// The check of one parameter: nothing for a parameter that is off or
/// boolean; a problem when it has neither a value nor a default; a numeric
/// check of the value for integers and floats; for an enumeration with a
/// list of options, a problem when the value is not one of them; nothing
/// for strings and paths.
pub open spec fn check_spec(d: DefModel, m: Map<Seq<char>, EntryModel>) -> CheckModel {
    if !enabled_in(m, d.id) || d.kind == ParamKind::Bool {
        CheckModel::Fine
    } else {
        let value = match m[d.id].value {
            Some(v) => Some(v),
            None => d.default,
        };
        match value {
            None => CheckModel::Problem("«"@ + d.name + "»: не задано значение"@),
            Some(v) => if d.kind == ParamKind::Int || d.kind == ParamKind::Float {
                CheckModel::CheckNumber(v)
            } else if d.kind == ParamKind::Enum && d.options.len() > 0 && !d.options.contains(
                enum_text(v),
            ) {
                CheckModel::Problem(
                    "«"@ + d.name + "»: «"@ + enum_text(v) + "» не из списка "@ + join_comma(
                        d.options,
                    ),
                )
            } else {
                CheckModel::Fine
            },
        }
    }
}

fn join_options(options: &Vec<String>) -> (r: Vec<char>)
    ensures
        r@ == join_comma(options@.map_values(|o: String| o@)),
{
    let ghost os = options@.map_values(|o: String| o@);
    let mut out: Vec<char> = Vec::new();
    let mut i: usize = 0;
    assert(os.take(0) =~= Seq::<Seq<char>>::empty());
    while i < options.len()
        invariant
            i <= options@.len(),
            os == options@.map_values(|o: String| o@),
            out@ == join_comma(os.take(i as int)),
        decreases options@.len() - i,
    {
        assert(os.take(i + 1).drop_last() =~= os.take(i as int));
        assert(os.take(i + 1).last() == options@[i as int]@);
        if i > 0 {
            crate::text::extend_chars(&mut out, &to_chars(", "));
        }
        crate::text::extend_chars(&mut out, &to_chars(options[i].as_str()));
        if i == 0 {
            assert(out@ =~= join_comma(os.take(1)));
        }
        i += 1;
    }
    assert(os.take(options@.len() as int) =~= os);
    out
}

/// Checks the value of one parameter against the catalog (see
/// [`check_spec`]).
pub fn check_value(def: &ParamDef, state: &ParamState) -> (r: ValueCheck)
    ensures
        r@ == check_spec(def@, state@),
{
    let entry = match state.get(def.id.as_str()) {
        Some(e) => e,
        None => return ValueCheck::Fine,
    };
    if !entry.enabled || def.kind == ParamKind::Bool {
        return ValueCheck::Fine;
    }
    let value = match &entry.value {
        Some(v) => Some(v),
        None => def.default.as_ref(),
    };
    let v = match value {
        Some(v) => v,
        None => {
            let mut msg = to_chars("«");
            crate::text::extend_chars(&mut msg, &to_chars(def.name.as_str()));
            crate::text::extend_chars(&mut msg, &to_chars("»: не задано значение"));
            return ValueCheck::Problem(crate::text::from_chars(&msg));
        },
    };
    if def.kind == ParamKind::Int || def.kind == ParamKind::Float {
        return ValueCheck::CheckNumber(copy_value(v));
    }
    if def.kind != ParamKind::Enum || def.options.len() == 0 {
        return ValueCheck::Fine;
    }
    let text: Vec<char> = match v {
        ParamValue::Text(s) => to_chars(s.as_str()),
        ParamValue::Json(_) => Vec::new(),
    };
    let ghost os = def.options@.map_values(|o: String| o@);
    let mut listed = false;
    let mut k: usize = 0;
    while k < def.options.len()
        invariant
            k <= def.options@.len(),
            os == def.options@.map_values(|o: String| o@),
            text@ == enum_text(v@),
            listed == exists|j: int| 0 <= j < k && #[trigger] os[j] == text@,
        decreases def.options@.len() - k,
    {
        if chars_eq(&to_chars(def.options[k].as_str()), &text) {
            listed = true;
        }
        proof {
            if listed && !(exists|j: int| 0 <= j < k && #[trigger] os[j] == text@) {
                assert(os[k as int] == text@);
            }
        }
        k += 1;
    }
    proof {
        if os.contains(text@) {
            let j = choose|j: int| 0 <= j < os.len() && os[j] == text@;
            assert(os[j] == text@);
        }
    }
    if listed {
        return ValueCheck::Fine;
    }
    let mut msg = to_chars("«");
    crate::text::extend_chars(&mut msg, &to_chars(def.name.as_str()));
    crate::text::extend_chars(&mut msg, &to_chars("»: «"));
    crate::text::extend_chars(&mut msg, &text);
    crate::text::extend_chars(&mut msg, &to_chars("» не из списка "));
    crate::text::extend_chars(&mut msg, &join_options(&def.options));
    ValueCheck::Problem(crate::text::from_chars(&msg))
}

// ---------------------------------------------------------------------------
// Laws
// ---------------------------------------------------------------------------

/// What is turned on or off reads back as such, and the value is kept.
pub proof fn lemma_set_reads_back(m: Map<Seq<char>, EntryModel>, id: Seq<char>, enabled: bool)
    ensures
        enabled_in(set_enabled_spec(m, id, enabled), id) == enabled,
        set_enabled_spec(m, id, enabled)[id].value == (if m.dom().contains(id) {
            m[id].value
        } else {
            None
        }),
        forall|other: Seq<char>|
            other != id ==> #[trigger] set_enabled_spec(m, id, enabled).dom().contains(other)
                == m.dom().contains(other) && (m.dom().contains(other) ==> set_enabled_spec(
                m,
                id,
                enabled,
            )[other] == m[other]),
{
}

/// A value that is set reads back, and whether the parameter is enabled does
/// not change.
pub proof fn lemma_set_value_reads_back(m: Map<Seq<char>, EntryModel>, id: Seq<char>, value: ValueModel)
    ensures
        set_value_spec(m, id, value)[id].value == Some(value),
        enabled_in(set_value_spec(m, id, value), id) == enabled_in(m, id),
{
}

/// Merging the catalog's defaults never changes a choice already made, and
/// afterwards every parameter of the catalog has an entry.
pub proof fn lemma_merge_keeps_choices(m: Map<Seq<char>, EntryModel>, defs: Seq<DefModel>)
    ensures
        forall|id: Seq<char>|
            m.dom().contains(id) ==> #[trigger] merged_spec(m, defs).dom().contains(id) && merged_spec(
                m,
                defs,
            )[id] == m[id],
        forall|i: int| 0 <= i < defs.len() ==> merged_spec(m, defs).dom().contains(#[trigger] defs[i].id),
    decreases defs.len(),
{
    if defs.len() > 0 {
        lemma_merge_keeps_choices(m, defs.drop_last());
        assert forall|id: Seq<char>| m.dom().contains(id) implies #[trigger] merged_spec(
            m,
            defs,
        ).dom().contains(id) && merged_spec(m, defs)[id] == m[id] by {
            assert(merged_spec(m, defs.drop_last()).dom().contains(id));
        }
        assert forall|i: int| 0 <= i < defs.len() implies merged_spec(m, defs).dom().contains(
            #[trigger] defs[i].id,
        ) by {
            if i < defs.len() - 1 {
                assert(defs.drop_last()[i] == defs[i]);
            }
        }
    }
}

/// With every parameter off, there are no arguments.
pub proof fn lemma_disabled_give_no_args(defs: Seq<DefModel>, m: Map<Seq<char>, EntryModel>)
    requires
        forall|i: int| 0 <= i < defs.len() ==> !enabled_in(m, #[trigger] defs[i].id),
    ensures
        args_spec(defs, m) == Seq::<Seq<char>>::empty(),
    decreases defs.len(),
{
    if defs.len() > 0 {
        assert forall|i: int| 0 <= i < defs.len() - 1 implies !enabled_in(m, #[trigger] defs.drop_last()[i].id) by {
            assert(defs.drop_last()[i] == defs[i]);
        }
        lemma_disabled_give_no_args(defs.drop_last(), m);
        assert(!enabled_in(m, defs[defs.len() - 1].id));
        assert(args_spec(defs, m) =~= Seq::<Seq<char>>::empty());
    }
}


/// What the check of one parameter gives, case by case. A parameter that is
/// off (no entry, or not enabled) or boolean is fine. Otherwise its value
/// is the chosen one, else the catalog's default: without one it is a
/// problem; an integer or float parameter sends exactly that value to the
/// numeric bounds check; an enumeration with a list of options is fine
/// exactly when the value's text is one of them; anything else is fine.
pub proof fn lemma_check_cases(d: DefModel, m: Map<Seq<char>, EntryModel>)
    ensures
        !(m.dom().contains(d.id) && m[d.id].enabled) ==> check_spec(d, m) == CheckModel::Fine,
        d.kind == ParamKind::Bool ==> check_spec(d, m) == CheckModel::Fine,
        m.dom().contains(d.id) && m[d.id].enabled && d.kind != ParamKind::Bool ==> {
            let value = if m[d.id].value is Some {
                m[d.id].value
            } else {
                d.default
            };
            &&& value is None ==> check_spec(d, m) is Problem
            &&& value is Some && (d.kind == ParamKind::Int || d.kind == ParamKind::Float) ==> check_spec(
                d,
                m,
            ) == CheckModel::CheckNumber(value.unwrap())
            &&& value is Some && d.kind == ParamKind::Enum && d.options.len() > 0 ==> {
                let text = match value.unwrap() {
                    ValueModel::Text(t) => t,
                    ValueModel::Json(_) => Seq::<char>::empty(),
                };
                &&& d.options.contains(text) ==> check_spec(d, m) == CheckModel::Fine
                &&& !d.options.contains(text) ==> check_spec(d, m) is Problem
            }
            &&& (value is Some && (d.kind == ParamKind::String || d.kind == ParamKind::Path || (d.kind
                == ParamKind::Enum && d.options.len() == 0))) ==> check_spec(d, m) == CheckModel::Fine
        },
{
}

/// A number chosen for an integer or float parameter that is turned on is
/// sent to the bounds check as it was chosen, whatever the choices were
/// before.
pub proof fn lemma_chosen_number_is_checked(
    d: DefModel,
    m: Map<Seq<char>, EntryModel>,
    v: ValueModel,
)
    requires
        d.kind == ParamKind::Int || d.kind == ParamKind::Float,
    ensures
        check_spec(d, set_value_spec(set_enabled_spec(m, d.id, true), d.id, v))
            == CheckModel::CheckNumber(v),
        check_spec(d, set_enabled_spec(set_value_spec(m, d.id, v), d.id, true))
            == CheckModel::CheckNumber(v),
{
}

/// What one more parameter of the catalog adds to the arguments: nothing
/// when it is off; its flag alone when it is a boolean that is on; for any
/// other kind that is on, its flag followed by the text of its value (the
/// chosen one, else the default), or nothing without a value.
pub proof fn lemma_args_step(defs: Seq<DefModel>, m: Map<Seq<char>, EntryModel>, i: int)
    requires
        0 <= i < defs.len(),
    ensures
        ({
            let d = defs[i];
            let before = args_spec(defs.take(i), m);
            let after = args_spec(defs.take(i + 1), m);
            let on = m.dom().contains(d.id) && m[d.id].enabled;
            let value = if on && m[d.id].value is Some {
                m[d.id].value
            } else {
                d.default
            };
            &&& !on ==> after == before
            &&& on && d.kind == ParamKind::Bool ==> after == before.push(d.flag)
            &&& on && d.kind != ParamKind::Bool ==> match value {
                Some(v) => after == before + seq![d.flag, value_text(v)],
                None => after == before,
            }
        }),
{
    assert(defs.take(i + 1).drop_last() =~= defs.take(i));
    assert(defs.take(i + 1).last() == defs[i]);
}

/// The arguments of the first parameters of the catalog come first in the
/// arguments of the whole catalog: each parameter's arguments stand at its
/// catalog position.
pub proof fn lemma_args_prefix(defs: Seq<DefModel>, m: Map<Seq<char>, EntryModel>, i: int, j: int)
    requires
        0 <= i <= j <= defs.len(),
    ensures
        args_spec(defs.take(i), m).len() <= args_spec(defs.take(j), m).len(),
        args_spec(defs.take(j), m).take(args_spec(defs.take(i), m).len() as int) == args_spec(
            defs.take(i),
            m,
        ),
        args_spec(defs.take(defs.len() as int), m) == args_spec(defs, m),
    decreases j - i,
{
    assert(defs.take(defs.len() as int) =~= defs);
    if i < j {
        lemma_args_prefix(defs, m, i, j - 1);
        assert(defs.take(j).drop_last() =~= defs.take(j - 1));
        let a = args_spec(defs.take(i), m);
        let b = args_spec(defs.take(j - 1), m);
        let c = args_spec(defs.take(j), m);
        assert(c == b + def_args(defs.take(j).last(), m));
        assert(c.take(a.len() as int) =~= b.take(a.len() as int));
    }
}

/// An enabled parameter that is not boolean and has a value puts its flag
/// and the value's text at its catalog position: right after the arguments
/// of the parameters before it.
pub proof fn lemma_valued_flag_has_its_value(defs: Seq<DefModel>, m: Map<Seq<char>, EntryModel>, i: int, v: ValueModel)
    requires
        0 <= i < defs.len(),
        m.dom().contains(defs[i].id),
        m[defs[i].id].enabled,
        defs[i].kind != ParamKind::Bool,
        m[defs[i].id].value == Some(v) || (m[defs[i].id].value is None && defs[i].default == Some(v)),
    ensures
        ({
            let k = args_spec(defs.take(i), m).len() as int;
            let all = args_spec(defs, m);
            &&& k + 2 <= all.len()
            &&& all[k] == defs[i].flag
            &&& all[k + 1] == value_text(v)
        }),
{
    lemma_args_step(defs, m, i);
    lemma_args_prefix(defs, m, i + 1, defs.len() as int);
    let k = args_spec(defs.take(i), m).len() as int;
    let mid = args_spec(defs.take(i + 1), m);
    let all = args_spec(defs, m);
    assert(mid == args_spec(defs.take(i), m) + seq![defs[i].flag, value_text(v)]);
    assert(all.take(mid.len() as int) == mid);
    assert(all[k] == all.take(mid.len() as int)[k]);
    assert(all[k + 1] == all.take(mid.len() as int)[k + 1]);
}

} // verus!
