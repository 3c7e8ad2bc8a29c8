//! Launch presets: where a named preset is stored, how a preset name
//! becomes a safe file name, and which files of the presets directory are
//! presets.

use vstd::prelude::*;

use crate::order::{
    chars_less, lemma_text_less_irreflexive, lemma_text_less_total, lemma_text_less_transitive,
    text_less,
};
use crate::params::ParamState;
use crate::paths::{join_path, joined, plain_component, verbatim};
use crate::text::{
    concat, ends_with, from_chars, has_suffix, is_white, to_chars, trim_chars, trimmed,
    trimmed_end_white, trimmed_start,
};

verus! {

/// Whether `char::is_alphanumeric` holds of a character beyond ASCII that
/// is not whitespace (the Unicode `Alphabetic` property or a number
/// category).
pub uninterp spec fn alnum_beyond_ascii(c: char) -> bool;

/// An ASCII letter or digit.
pub open spec fn ascii_alnum(c: char) -> bool {
    ('a' <= c && c <= 'z') || ('A' <= c && c <= 'Z') || ('0' <= c && c <= '9')
}

/// Whether `char::is_alphanumeric` holds of `c`: within ASCII exactly the
/// letters and digits; never for a whitespace character; beyond that as
/// Unicode says.
pub open spec fn is_alnum(c: char) -> bool {
    if (c as u32) < 128 {
        ascii_alnum(c)
    } else if is_white(c) {
        false
    } else {
        alnum_beyond_ascii(c)
    }
}

/// `char::is_alphanumeric`: the Unicode `Alphabetic` property or a number
/// category (`Nd`, `Nl`, `No`), as std documents it. Claimed: within ASCII
/// it holds exactly of letters and digits, and it never holds of a
/// whitespace character; for other characters the result is only named.
#[verifier::external_body]
pub(crate) fn char_is_alphanumeric(c: char) -> (r: bool)
    ensures
        r == is_alnum(c),
        (c as u32) >= 128 && !is_white(c) ==> r == alnum_beyond_ascii(c),
{
    c.is_alphanumeric()
}

/// A char kept in a file name: alphanumeric or one of `-`, `_`, `.`; any
/// other char (space included) becomes `_`.
pub open spec fn safe_char(c: char) -> char {
    if is_alnum(c) || c == '-' || c == '_' || c == '.' {
        c
    } else {
        '_'
    }
}

pub open spec fn is_pad(c: char) -> bool {
    c == '_' || c == '.'
}

/// `s` without leading `_` and `.`.
pub open spec fn strip_pad_start(s: Seq<char>) -> Seq<char>
    decreases s.len(),
{
    if s.len() > 0 && is_pad(s[0]) {
        strip_pad_start(s.skip(1))
    } else {
        s
    }
}

/// `s` without trailing `_` and `.`.
pub open spec fn strip_pad_end(s: Seq<char>) -> Seq<char>
    decreases s.len(),
{
    if s.len() > 0 && is_pad(s.last()) {
        strip_pad_end(s.drop_last())
    } else {
        s
    }
}

/// The file-name form of a preset name: trimmed, every char mapped by
/// [`safe_char`], leading and trailing `_`/`.` removed, and `preset` when
/// nothing is left.
pub open spec fn sanitize_spec(name: Seq<char>) -> Seq<char> {
    let cleaned = trimmed(name).map_values(|c: char| safe_char(c));
    let core = strip_pad_end(strip_pad_start(cleaned));
    if core.len() == 0 {
        "preset"@
    } else {
        core
    }
}

proof fn lemma_strip_start_no_pad(s: Seq<char>)
    ensures
        strip_pad_start(s).len() > 0 ==> !is_pad(strip_pad_start(s)[0]),
        strip_pad_start(s).len() <= s.len(),
    decreases s.len(),
{
    if s.len() > 0 && is_pad(s[0]) {
        lemma_strip_start_no_pad(s.skip(1));
    }
}

proof fn lemma_strip_end_keeps_start(s: Seq<char>)
    requires
        s.len() > 0 ==> !is_pad(s[0]),
    ensures
        strip_pad_end(s).len() > 0 ==> !is_pad(strip_pad_end(s)[0]) && !is_pad(strip_pad_end(s).last()),
        strip_pad_end(s).len() > 0 ==> strip_pad_end(s)[0] == s[0],
    decreases s.len(),
{
    if s.len() > 0 && is_pad(s.last()) {
        lemma_strip_end_keeps_start(s.drop_last());
    }
}

/// A preset's file name never starts or ends with `.` or `_`, is never
/// empty, and so is never `.` or `..`: it cannot name the presets directory
/// or its parent.
pub proof fn lemma_sanitized_is_plain_name(name: Seq<char>)
    ensures
        sanitize_spec(name).len() > 0,
        !is_pad(sanitize_spec(name)[0]),
        !is_pad(sanitize_spec(name).last()),
        sanitize_spec(name) != seq!['.'],
        sanitize_spec(name) != seq!['.', '.'],
{
    let cleaned = trimmed(name).map_values(|c: char| safe_char(c));
    lemma_strip_start_no_pad(cleaned);
    lemma_strip_end_keeps_start(strip_pad_start(cleaned));
    let r = sanitize_spec(name);
    if strip_pad_end(strip_pad_start(cleaned)).len() == 0 {
        reveal_strlit("preset");
        assert(r[0] == 'p');
        assert(r.last() == 't');
    }
    if r == seq!['.'] {
        assert(r[0] == '.');
    }
    if r == seq!['.', '.'] {
        assert(r[0] == '.');
    }
}

proof fn lemma_trim_start_is_suffix(s: Seq<char>)
    ensures
        trimmed_start(s).len() <= s.len(),
        trimmed_start(s) == s.skip(s.len() - trimmed_start(s).len()),
    decreases s.len(),
{
    if s.len() > 0 && is_white(s[0]) {
        lemma_trim_start_is_suffix(s.skip(1));
        assert(s.skip(1).skip(s.len() - 1 - trimmed_start(s).len()) =~= s.skip(s.len() - trimmed_start(s).len()));
    } else {
        assert(s.skip(0) =~= s);
    }
}

proof fn lemma_trim_end_is_prefix(s: Seq<char>)
    ensures
        trimmed_end_white(s).len() <= s.len(),
        trimmed_end_white(s) == s.take(trimmed_end_white(s).len() as int),
    decreases s.len(),
{
    if s.len() > 0 && is_white(s.last()) {
        lemma_trim_end_is_prefix(s.drop_last());
        assert(s.drop_last().take(trimmed_end_white(s).len() as int) =~= s.take(trimmed_end_white(s).len() as int));
    } else {
        assert(s.take(s.len() as int) =~= s);
    }
}

proof fn lemma_strip_start_is_suffix(s: Seq<char>)
    ensures
        strip_pad_start(s).len() <= s.len(),
        strip_pad_start(s) == s.skip(s.len() - strip_pad_start(s).len()),
    decreases s.len(),
{
    if s.len() > 0 && is_pad(s[0]) {
        lemma_strip_start_is_suffix(s.skip(1));
        assert(s.skip(1).skip(s.len() - 1 - strip_pad_start(s).len()) =~= s.skip(s.len() - strip_pad_start(s).len()));
    } else {
        assert(s.skip(0) =~= s);
    }
}

proof fn lemma_strip_end_is_prefix(s: Seq<char>)
    ensures
        strip_pad_end(s).len() <= s.len(),
        strip_pad_end(s) == s.take(strip_pad_end(s).len() as int),
    decreases s.len(),
{
    if s.len() > 0 && is_pad(s.last()) {
        lemma_strip_end_is_prefix(s.drop_last());
        assert(s.drop_last().take(strip_pad_end(s).len() as int) =~= s.take(strip_pad_end(s).len() as int));
    } else {
        assert(s.take(s.len() as int) =~= s);
    }
}

/// Every char of a file-name form is one that [`safe_char`] keeps, and its
/// first and last chars are no whitespace.
proof fn lemma_sanitized_chars(name: Seq<char>)
    ensures
        forall|k: int|
            0 <= k < sanitize_spec(name).len() ==> safe_char(#[trigger] sanitize_spec(name)[k])
                == sanitize_spec(name)[k],
        sanitize_spec(name).len() > 0,
        !is_white(sanitize_spec(name)[0]),
        !is_white(sanitize_spec(name).last()),
{
    reveal(is_white);
    reveal_strlit("preset");
    let t = trimmed(name);
    let ts = trimmed_start(name);
    lemma_trim_start_is_suffix(name);
    lemma_trim_end_is_prefix(ts);
    let o = name.len() - ts.len();
    assert forall|j: int| 0 <= j < t.len() implies #[trigger] t[j] == name[o + j] by {
        assert(t[j] == ts[j]);
        assert(ts[j] == name.skip(o)[j]);
    }
    let cleaned = t.map_values(|c: char| safe_char(c));
    let ss = strip_pad_start(cleaned);
    lemma_strip_start_is_suffix(cleaned);
    lemma_strip_end_is_prefix(ss);
    lemma_strip_start_no_pad(cleaned);
    lemma_strip_end_keeps_start(ss);
    let a = cleaned.len() - ss.len();
    let core = strip_pad_end(ss);
    let r = sanitize_spec(name);
    if core.len() == 0 {
        assert(r =~= seq!['p', 'r', 'e', 's', 'e', 't']) by {
            assert(r == "preset"@);
        }
    }
    assert forall|k: int| 0 <= k < r.len() implies safe_char(#[trigger] r[k]) == r[k] by {
        if core.len() == 0 {
            assert(r[k] == seq!['p', 'r', 'e', 's', 'e', 't'][k]);
        } else {
            assert(r[k] == ss[k]);
            assert(ss[k] == cleaned[a + k]);
        }
    }
    if core.len() > 0 {
        let first = a;
        let last = a + core.len() - 1;
        assert(r[0] == ss[0] && ss[0] == cleaned[first]);
        assert(r.last() == ss[core.len() - 1] && ss[core.len() - 1] == cleaned[last]);
        assert(t[first] == name[o + first]);
        assert(t[last] == name[o + last]);
    }
}

/// A name already in file-name form is its own file-name form.
pub proof fn lemma_sanitize_idempotent(name: Seq<char>)
    ensures
        sanitize_spec(sanitize_spec(name)) == sanitize_spec(name),
{
    let r = sanitize_spec(name);
    lemma_sanitized_chars(name);
    lemma_sanitized_is_plain_name(name);
    // Trimming, mapping and stripping leave the file-name form unchanged.
    assert(trimmed_start(r) == r);
    assert(trimmed_end_white(r) == r);
    assert(trimmed(r) == r);
    let cleaned = r.map_values(|c: char| safe_char(c));
    assert(cleaned =~= r);
    assert(strip_pad_start(r) == r);
    assert(strip_pad_end(r) == r);
}

/// The file name of a preset is always a single plain path component.
pub proof fn lemma_preset_file_name_plain(name: Seq<char>)
    ensures
        plain_component(preset_file_name(name)),
{
    reveal_strlit(".json");
    let r = sanitize_spec(name);
    let f = preset_file_name(name);
    lemma_sanitized_chars(name);
    assert(".json"@ =~= seq!['.', 'j', 's', 'o', 'n']);
    assert forall|i: int| 0 <= i < f.len() implies #[trigger] f[i] != '/' && f[i] != '\\' && f[i] != ':' by {
        if i < r.len() {
            assert(f[i] == r[i]);
            assert(safe_char(r[i]) == r[i]);
        } else {
            assert(f[i] == seq!['.', 'j', 's', 'o', 'n'][i - r.len()]);
        }
    }
    if f == seq!['.'] || f == seq!['.', '.'] {
        assert(f.len() >= 6);
    }
}

/// Maps a preset name to a safe file name component: separators and other
/// exotic chars become `_`, and the result can never be `.` or `..`.
pub fn sanitize_name(name: &str) -> (r: String)
    ensures
        r@ == sanitize_spec(name@),
{
    let t = trim_chars(&to_chars(name));
    let mut cleaned: Vec<char> = Vec::new();
    let mut i: usize = 0;
    while i < t.len()
        invariant
            i <= t@.len(),
            cleaned@ == t@.take(i as int).map_values(|c: char| safe_char(c)),
        decreases t@.len() - i,
    {
        let c = t[i];
        let keep = char_is_alphanumeric(c) || c == '-' || c == '_' || c == '.';
        cleaned.push(if keep { c } else { '_' });
        i += 1;
        assert(cleaned@ =~= t@.take(i as int).map_values(|c: char| safe_char(c)));
    }
    assert(t@.take(t@.len() as int) =~= t@);
    let ghost cl = cleaned@;
    let mut start: usize = 0;
    assert(cl.skip(0) =~= cl);
    while start < cleaned.len() && (cleaned[start] == '_' || cleaned[start] == '.')
        invariant
            start <= cl.len(),
            cl == cleaned@,
            strip_pad_start(cl) == strip_pad_start(cl.skip(start as int)),
        decreases cl.len() - start,
    {
        assert(cl.skip(start as int).skip(1) =~= cl.skip(start + 1));
        start += 1;
    }
    let ghost mid = cl.skip(start as int);
    let mut end: usize = cleaned.len();
    assert(mid.take(mid.len() as int) =~= mid);
    while end > start && (cleaned[end - 1] == '_' || cleaned[end - 1] == '.')
        invariant
            start <= end <= cl.len(),
            cl == cleaned@,
            mid == cl.skip(start as int),
            strip_pad_end(mid) == strip_pad_end(mid.take(end - start)),
        decreases end,
    {
        assert(mid.take(end - start).drop_last() =~= mid.take(end - start - 1));
        end -= 1;
    }
    let core = vstd::slice::slice_subrange(cleaned.as_slice(), start, end);
    assert(core@ =~= mid.take(end - start));
    if core.len() == 0 {
        return from_chars(&to_chars("preset"));
    }
    from_chars(core)
}

/// A named launch configuration: the server form and the parameter
/// choices.
pub struct Preset {
    pub name: String,
    pub binary: String,
    pub model: String,
    pub host: String,
    pub port: u16,
    /// Raw extra-arguments line (shell-style).
    pub extra_args: String,
    pub params: ParamState,
}

/// Name given to an imported preset: its own when it has one, else the
/// stem of the file it came from, else `импортирован`.
pub open spec fn imported_name_spec(name: Seq<char>, file_stem: Option<Seq<char>>) -> Seq<char> {
    if name.len() > 0 {
        name
    } else {
        match file_stem {
            Some(stem) => stem,
            None => "импортирован"@,
        }
    }
}

pub open spec fn opt_chars(s: Option<&str>) -> Option<Seq<char>> {
    match s {
        Some(x) => Some(x@),
        None => None,
    }
}

impl Preset {
    /// The preset as loaded under `name`: it takes the name it was asked
    /// by, whatever its file says; the rest is kept.
    pub fn loaded_as(self, name: &str) -> (r: Preset)
        ensures
            r.name@ == name@,
            r.binary == self.binary,
            r.model == self.model,
            r.host == self.host,
            r.port == self.port,
            r.extra_args == self.extra_args,
            r.params == self.params,
    {
        Preset { name: from_chars(&to_chars(name)), ..self }
    }

    /// The preset as imported from a file whose stem is `file_stem` (`None`
    /// when the file has no stem readable as text): named as
    /// [`imported_name_spec`] says; the rest is kept.
    pub fn imported(self, file_stem: Option<&str>) -> (r: Preset)
        ensures
            r.name@ == imported_name_spec(self.name@, opt_chars(file_stem)),
            r.binary == self.binary,
            r.model == self.model,
            r.host == self.host,
            r.port == self.port,
            r.extra_args == self.extra_args,
            r.params == self.params,
    {
        if to_chars(self.name.as_str()).len() > 0 {
            return self;
        }
        let name = match file_stem {
            Some(stem) => from_chars(&to_chars(stem)),
            None => from_chars(&to_chars("импортирован")),
        };
        Preset { name, ..self }
    }
}

/// Presets are stored one JSON file per preset in the presets directory.
pub struct PresetStore {
    dir: String,
}

impl View for PresetStore {
    type V = Seq<char>;

    /// The presets directory.
    closed spec fn view(&self) -> Seq<char> {
        self.dir@
    }
}

/// File name of the preset called `name`: its safe form and `.json`.
pub open spec fn preset_file_name(name: Seq<char>) -> Seq<char> {
    sanitize_spec(name) + ".json"@
}

impl PresetStore {
    /// A store in the given directory.
    pub fn new(dir: String) -> (r: Self)
        ensures
            r@ == dir@,
    {
        PresetStore { dir }
    }

    /// The presets directory.
    pub fn dir(&self) -> (r: &str)
        ensures
            r@ == self@,
    {
        self.dir.as_str()
    }

    /// Path of the file of the preset called `name`: its file name (see
    /// [`preset_file_name`]) inside the presets directory (not described
    /// for a Windows verbatim directory).
    pub fn path_for(&self, name: &str) -> (r: String)
        ensures
            !verbatim(self@) ==> joined(self@, preset_file_name(name@), r@),
    {
        let file = concat(&to_chars(sanitize_name(name).as_str()), &to_chars(".json"));
        proof {
            lemma_preset_file_name_plain(name@);
        }
        join_path(self.dir.as_str(), from_chars(&file).as_str())
    }
}

/// The preset name a file of the presets directory stands for: the file
/// name without its `.json` extension, for files with that extension (a
/// file called just `.json` has none).
pub open spec fn preset_stem(file_name: Seq<char>) -> Option<Seq<char>> {
    if file_name.len() > 5 && has_suffix(file_name, ".json"@) {
        Some(file_name.take(file_name.len() - 5))
    } else {
        None
    }
}

/// The preset names among the file names, in the order given.
pub open spec fn stems_of(files: Seq<Seq<char>>) -> Seq<Seq<char>>
    decreases files.len(),
{
    if files.len() == 0 {
        seq![]
    } else {
        match preset_stem(files.last()) {
            Some(n) => stems_of(files.drop_last()).push(n),
            None => stems_of(files.drop_last()),
        }
    }
}

/// In alphabetical order (the order of `str`).
pub open spec fn sorted_asc(s: Seq<Seq<char>>) -> bool {
    forall|i: int, j: int| 0 <= i < j < s.len() ==> !text_less(#[trigger] s[j], #[trigger] s[i])
}

pub open spec fn strings_view(s: Seq<String>) -> Seq<Seq<char>> {
    s.map_values(|x: String| x@)
}

/// Inserts `name` into the alphabetical list `out`, after every name not
/// greater than it.
fn insert_name(out: &mut Vec<String>, name: String)
    requires
        sorted_asc(strings_view(old(out)@)),
    ensures
        sorted_asc(strings_view(final(out)@)),
        strings_view(final(out)@).to_multiset() == strings_view(old(out)@).to_multiset().insert(name@),
{
    let ghost s = strings_view(out@);
    let key = to_chars(name.as_str());
    let mut p: usize = 0;
    let mut found = false;
    while !found && p < out.len()
        invariant
            p <= out@.len(),
            s == strings_view(out@),
            key@ == name@,
            found ==> p < out@.len() && text_less(name@, s[p as int]),
            forall|k: int| 0 <= k < p ==> !text_less(name@, #[trigger] s[k]),
        decreases out@.len() - p, if found { 0int } else { 1int },
    {
        if chars_less(&key, &to_chars(out[p].as_str())) {
            found = true;
        } else {
            p += 1;
        }
    }
    let ghost x = name@;
    out.insert(p, name);
    proof {
        let t = strings_view(out@);
        assert(t =~= s.insert(p as int, x));
        vstd::seq_lib::to_multiset_insert(s, p as int, x);
        assert forall|i: int, j: int| 0 <= i < j < t.len() implies !text_less(
            #[trigger] t[j],
            #[trigger] t[i],
        ) by {
            if j < p {
                assert(t[i] == s[i] && t[j] == s[j]);
            } else if j == p {
                assert(t[i] == s[i]);
            } else if i > p {
                assert(t[i] == s[i - 1] && t[j] == s[j - 1]);
            } else if i == p {
                // x < s[p], and s[j - 1] comes no earlier than s[p].
                assert(t[j] == s[j - 1]);
                assert(found);
                lemma_text_less_total(s[j - 1], s[p as int]);
                if text_less(s[j - 1], x) {
                    if text_less(s[p as int], s[j - 1]) {
                        lemma_text_less_transitive(s[p as int], s[j - 1], x);
                    } else if j - 1 > p {
                        assert(!text_less(s[j - 1], s[p as int]));
                        assert(s[j - 1] == s[p as int]);
                    }
                    lemma_text_less_transitive(x, s[p as int], x);
                    lemma_text_less_irreflexive(x);
                }
            } else {
                assert(t[i] == s[i] && t[j] == s[j - 1]);
            }
        }
    }
}

/// The names of the stored presets, from the names of the files in the
/// presets directory: the names of the `.json` files without the
/// extension, in alphabetical order.
pub fn preset_names(file_names: &[String]) -> (r: Vec<String>)
    ensures
        sorted_asc(strings_view(r@)),
        strings_view(r@).to_multiset() == stems_of(strings_view(file_names@)).to_multiset(),
{
    let ghost fs = strings_view(file_names@);
    let ext = to_chars(".json");
    let mut out: Vec<String> = Vec::new();
    let mut i: usize = 0;
    assert(fs.take(0) =~= Seq::<Seq<char>>::empty());
    assert(strings_view(out@) =~= stems_of(fs.take(0)));
    while i < file_names.len()
        invariant
            i <= file_names@.len(),
            fs == strings_view(file_names@),
            ext@ == ".json"@,
            sorted_asc(strings_view(out@)),
            strings_view(out@).to_multiset() == stems_of(fs.take(i as int)).to_multiset(),
        decreases file_names@.len() - i,
    {
        assert(fs.take(i + 1).drop_last() =~= fs.take(i as int));
        assert(fs.take(i + 1).last() == fs[i as int]);
        let f = to_chars(file_names[i].as_str());
        if f.len() > 5 && ends_with(&f, &ext) {
            let stem = vstd::slice::slice_subrange(f.as_slice(), 0, f.len() - 5);
            assert(stem@ =~= f@.take(f@.len() - 5));
            let ghost prev = stems_of(fs.take(i as int));
            proof {
                vstd::seq_lib::to_multiset_build(prev, stem@);
            }
            insert_name(&mut out, from_chars(stem));
        }
        i += 1;
    }
    assert(fs.take(file_names@.len() as int) =~= fs);
    out
}

} // verus!
