//! HuggingFace: request URLs, the selection of GGUF files in a repository
//! listing, download requests, and the quantisation named in a file name.

use vstd::prelude::*;
use vstd::string::StringSliceAdditionalSpecFns;

use crate::download::{headers_view, user_agent, CancelFlag, DownloadRequest};
use crate::text::{
    concat, contains_seq, extend_chars, from_chars, has_suffix, push_char, to_chars, trim_chars,
    trimmed, is_white,
};

verus! {

/// A model found by a search (a repository with GGUF files).
#[derive(Clone, Debug, PartialEq)]
pub struct HfModel {
    pub id: String,
    pub likes: u64,
    pub downloads: u64,
}

/// A file in a model repository.
#[derive(Clone, Debug, PartialEq)]
pub struct HfFile {
    pub path: String,
    pub size: u64,
}

/// One entry of a repository tree listing, as far as the selection of GGUF
/// files reads it: the `type`, `path` and `size` fields when they are
/// present with the right JSON type.
#[derive(Clone, Debug, PartialEq)]
pub struct TreeEntry {
    pub entry_type: Option<String>,
    pub path: Option<String>,
    pub size: Option<u64>,
}

pub open spec fn api_base() -> Seq<char> {
    "https://huggingface.co"@
}

// ---------------------------------------------------------------------------
// URLs
// ---------------------------------------------------------------------------

/// Download URL of a file of a repository (`resolve` redirects to the CDN).
pub open spec fn download_url_spec(repo: Seq<char>, path: Seq<char>) -> Seq<char> {
    api_base() + "/"@ + repo + "/resolve/main/"@ + path
}

/// Download URL of a file of a repository.
pub fn download_url(repo: &str, path: &str) -> (r: String)
    ensures
        r@ == download_url_spec(repo@, path@),
{
    let mut out = to_chars("https://huggingface.co");
    extend_chars(&mut out, &to_chars("/"));
    extend_chars(&mut out, &to_chars(repo));
    extend_chars(&mut out, &to_chars("/resolve/main/"));
    extend_chars(&mut out, &to_chars(path));
    from_chars(&out)
}

/// Bytes that stay as they are in a URL component: ASCII letters, digits
/// and `-_.~`.
pub open spec fn unreserved(b: u8) -> bool {
    (0x41 <= b <= 0x5A) || (0x61 <= b <= 0x7A) || (0x30 <= b <= 0x39) || b == 0x2D || b == 0x5F || b
        == 0x2E || b == 0x7E
}

/// Upper-case hexadecimal digit of `d < 16`.
pub open spec fn hex_digit(d: u8) -> char {
    if d < 10 {
        ((48 + d) as u32) as char
    } else {
        ((55 + d) as u32) as char
    }
}

/// The encoding of one byte: itself, or `%` and two upper-case hex digits.
pub open spec fn encode_byte(b: u8) -> Seq<char> {
    if unreserved(b) {
        seq![b as char]
    } else {
        seq!['%', hex_digit(b / 16), hex_digit(b % 16)]
    }
}

/// Percent-encoding of a byte sequence, byte by byte.
pub open spec fn url_encoded(bytes: Seq<u8>) -> Seq<char>
    decreases bytes.len(),
{
    if bytes.len() == 0 {
        seq![]
    } else {
        url_encoded(bytes.drop_last()) + encode_byte(bytes.last())
    }
}

fn hex_char(d: u8) -> (c: char)
    requires
        d < 16,
    ensures
        c == hex_digit(d),
{
    if d < 10 {
        (48 + d) as char
    } else {
        (55 + d) as char
    }
}

/// Percent-encoding of a URL component: the UTF-8 bytes of `text`, with
/// every byte other than ASCII letters, digits and `-_.~` written as `%XX`.
pub fn url_encode(text: &str) -> (r: String)
    ensures
        r@ == url_encoded(text.spec_bytes()),
{
    let bytes = text.as_bytes();
    let mut out = String::new();
    let mut i: usize = 0;
    while i < bytes.len()
        invariant
            i <= bytes@.len(),
            out@ == url_encoded(bytes@.take(i as int)),
        decreases bytes@.len() - i,
    {
        let b = bytes[i];
        assert(bytes@.take(i + 1).drop_last() =~= bytes@.take(i as int));
        assert(bytes@.take(i + 1).last() == b);
        if (0x41 <= b && b <= 0x5A) || (0x61 <= b && b <= 0x7A) || (0x30 <= b && b <= 0x39) || b
            == 0x2D || b == 0x5F || b == 0x2E || b == 0x7E {
            push_char(&mut out, b as char);
        } else {
            push_char(&mut out, '%');
            push_char(&mut out, hex_char(b / 16));
            push_char(&mut out, hex_char(b % 16));
        }
        i += 1;
        assert(out@ =~= url_encoded(bytes@.take(i as int)));
    }
    assert(bytes@.take(bytes@.len() as int) =~= bytes@);
    out
}

/// URL of a model search: GGUF repositories only, 30 results, most
/// downloaded first.
pub open spec fn search_url_spec(query_bytes: Seq<u8>) -> Seq<char> {
    api_base() + "/api/models?search="@ + url_encoded(query_bytes)
        + "&filter=gguf&limit=30&sort=downloads&direction=-1"@
}

/// URL of a model search for `query`.
pub fn search_url(query: &str) -> (r: String)
    ensures
        r@ == search_url_spec(query.spec_bytes()),
{
    let mut out = to_chars("https://huggingface.co");
    extend_chars(&mut out, &to_chars("/api/models?search="));
    extend_chars(&mut out, &to_chars(url_encode(query).as_str()));
    extend_chars(&mut out, &to_chars("&filter=gguf&limit=30&sort=downloads&direction=-1"));
    from_chars(&out)
}

/// URL of the file listing of a repository's main branch (the `org/name`
/// separator is kept as it is).
pub open spec fn tree_url_spec(repo: Seq<char>) -> Seq<char> {
    api_base() + "/api/models/"@ + repo + "/tree/main"@
}

/// URL of the file listing of a repository.
pub fn tree_url(repo: &str) -> (r: String)
    ensures
        r@ == tree_url_spec(repo@),
{
    let mut out = to_chars("https://huggingface.co");
    extend_chars(&mut out, &to_chars("/api/models/"));
    extend_chars(&mut out, &to_chars(repo));
    extend_chars(&mut out, &to_chars("/tree/main"));
    from_chars(&out)
}

// ---------------------------------------------------------------------------
// Listing and download requests
// ---------------------------------------------------------------------------

pub struct HfFileModel {
    pub path: Seq<char>,
    pub size: u64,
}

impl View for HfFile {
    type V = HfFileModel;

    open spec fn view(&self) -> HfFileModel {
        HfFileModel { path: self.path@, size: self.size }
    }
}

pub struct TreeEntryModel {
    pub entry_type: Option<Seq<char>>,
    pub path: Option<Seq<char>>,
    pub size: Option<u64>,
}

impl View for TreeEntry {
    type V = TreeEntryModel;

    open spec fn view(&self) -> TreeEntryModel {
        TreeEntryModel {
            entry_type: match self.entry_type {
                Some(t) => Some(t@),
                None => None,
            },
            path: match self.path {
                Some(p) => Some(p@),
                None => None,
            },
            size: self.size,
        }
    }
}

/// The file an entry describes when it is a file whose path, in ASCII lower
/// case, ends in `.gguf` (a missing size counts as 0).
pub open spec fn gguf_file_of(e: TreeEntryModel) -> Option<HfFileModel> {
    match e.path {
        Some(p) => if e.entry_type == Some("file"@) && has_suffix(
            crate::text::ascii_lower(p),
            ".gguf"@,
        ) {
            Some(
                HfFileModel {
                    path: p,
                    size: match e.size {
                        Some(s) => s,
                        None => 0,
                    },
                },
            )
        } else {
            None
        },
        None => None,
    }
}

/// The GGUF files among the entries, in order (directories and other files
/// left out).
pub open spec fn gguf_files_spec(es: Seq<TreeEntryModel>) -> Seq<HfFileModel>
    decreases es.len(),
{
    if es.len() == 0 {
        seq![]
    } else {
        gguf_files_spec(es.drop_last()) + match gguf_file_of(es.last()) {
            Some(f) => seq![f],
            None => seq![],
        }
    }
}

/// The `.gguf` files of a repository listing (mmproj and draft models
/// included; directories excluded).
pub fn select_gguf_files(entries: &[TreeEntry]) -> (r: Vec<HfFile>)
    ensures
        r@.map_values(|f: HfFile| f@) == gguf_files_spec(entries@.map_values(|e: TreeEntry| e@)),
{
    let ghost es = entries@.map_values(|e: TreeEntry| e@);
    let mut out: Vec<HfFile> = Vec::new();
    let mut i: usize = 0;
    let file_word = to_chars("file");
    let ext = to_chars(".gguf");
    assert(out@.map_values(|f: HfFile| f@) =~= gguf_files_spec(es.take(0)));
    while i < entries.len()
        invariant
            i <= entries@.len(),
            es == entries@.map_values(|e: TreeEntry| e@),
            file_word@ == "file"@,
            ext@ == ".gguf"@,
            out@.map_values(|f: HfFile| f@) == gguf_files_spec(es.take(i as int)),
        decreases entries@.len() - i,
    {
        let e = &entries[i];
        assert(es.take(i + 1).drop_last() =~= es.take(i as int));
        assert(es.take(i + 1).last() == e@);
        let ghost before = out@.map_values(|f: HfFile| f@);
        if let Some(p) = &e.path {
            let is_file = match &e.entry_type {
                Some(t) => crate::text::chars_eq(&to_chars(t.as_str()), &file_word),
                None => false,
            };
            let lower = crate::text::to_ascii_lowercase(&to_chars(p.as_str()));
            if is_file && crate::text::ends_with(&lower, &ext) {
                let size = match e.size {
                    Some(s) => s,
                    None => 0,
                };
                let f = HfFile { path: p.clone(), size };
                out.push(f);
                assert(out@.map_values(|f: HfFile| f@) =~= before.push(f@));
            }
        }
        i += 1;
        assert(out@.map_values(|f: HfFile| f@) =~= gguf_files_spec(es.take(i as int)));
    }
    assert(es.take(entries@.len() as int) =~= es);
    out
}

/// Headers of a model download: the user agent, and a bearer token when the
/// token is not blank (surrounding whitespace trimmed).
pub open spec fn download_headers_spec(token: Option<Seq<char>>) -> Seq<(Seq<char>, Seq<char>)> {
    let base = seq![("User-Agent"@, user_agent())];
    match token {
        Some(t) => if trimmed(t).len() > 0 {
            base.push(("Authorization"@, "Bearer "@ + trimmed(t)))
        } else {
            base
        },
        None => base,
    }
}

/// Headers of a request to HuggingFace (see [`download_headers_spec`]): the
/// user agent, and a bearer token when the token is not blank.
pub fn api_headers(token: Option<&str>) -> (r: Vec<(String, String)>)
    ensures
        headers_view(r@) == download_headers_spec(opt_token(token)),
{
    let mut headers: Vec<(String, String)> = Vec::new();
    headers.push((from_chars(&to_chars("User-Agent")), from_chars(&to_chars("llamacpp-manager"))));
    let ghost base = headers_view(headers@);
    assert(base =~= seq![("User-Agent"@, user_agent())]);
    if let Some(t) = token {
        let tt = trim_chars(&to_chars(t));
        if tt.len() > 0 {
            let value = concat(&to_chars("Bearer "), &tt);
            headers.push((from_chars(&to_chars("Authorization")), from_chars(&value)));
            assert(headers_view(headers@) =~= base.push(("Authorization"@, "Bearer "@ + trimmed(t@))));
        }
    }
    headers
}

pub open spec fn opt_token(token: Option<&str>) -> Option<Seq<char>> {
    match token {
        Some(t) => Some(t@),
        None => None,
    }
}

/// The request that downloads `path` of `repo` to `dest`, resuming a partial
/// file.
pub fn model_download_request(repo: &str, path: &str, dest: &str, token: Option<&str>) -> (r:
    DownloadRequest)
    ensures
        r.url@ == download_url_spec(repo@, path@),
        r.dest@ == dest@,
        headers_view(r.headers@) == download_headers_spec(opt_token(token)),
        r.resume,
{
    let headers = api_headers(token);
    DownloadRequest {
        url: download_url(repo, path),
        dest: from_chars(&to_chars(dest)),
        headers,
        resume: true,
        cancel: CancelFlag::new(),
    }
}

// ---------------------------------------------------------------------------
// Quantisation from a file name
// ---------------------------------------------------------------------------

/// `.gguf` as bytes.
pub open spec fn gguf_ext_bytes() -> Seq<u8> {
    seq![0x2Eu8, 0x67u8, 0x67u8, 0x75u8, 0x66u8]
}

/// The bytes of a name without a trailing `.gguf`.
pub open spec fn stem_bytes(nb: Seq<u8>) -> Seq<u8> {
    if has_suffix(nb, gguf_ext_bytes()) {
        nb.take(nb.len() - 5)
    } else {
        nb
    }
}

pub open spec fn upper_byte(b: u8) -> u8 {
    if 0x61 <= b <= 0x7A {
        (b - 32) as u8
    } else {
        b
    }
}

/// ASCII upper case, byte by byte.
pub open spec fn upper_bytes(s: Seq<u8>) -> Seq<u8> {
    s.map_values(|b: u8| upper_byte(b))
}

pub open spec fn digit_byte(b: u8) -> bool {
    0x30 <= b <= 0x39
}

/// A quantisation name starts at `i`: `Q` and a digit, or `IQ` and a digit.
pub open spec fn quant_start(u: Seq<u8>, i: int) -> bool {
    0 <= i < u.len() && ((u[i] == 0x51 && i + 1 < u.len() && digit_byte(u[i + 1])) || (u[i] == 0x49
        && i + 2 < u.len() && u[i + 1] == 0x51 && digit_byte(u[i + 2])))
}

/// The first quantisation start at or after `i`.
pub open spec fn first_quant_start(u: Seq<u8>, i: int) -> Option<int>
    decreases u.len() - i,
{
    if i < 0 || i >= u.len() {
        None
    } else if quant_start(u, i) {
        Some(i)
    } else {
        first_quant_start(u, i + 1)
    }
}

/// ASCII letters, digits and `_`.
pub open spec fn word_byte(b: u8) -> bool {
    (0x41 <= b <= 0x5A) || (0x61 <= b <= 0x7A) || digit_byte(b) || b == 0x5F
}

/// End of the run of word bytes starting at `i`.
pub open spec fn word_end(u: Seq<u8>, i: int) -> int
    decreases u.len() - i,
{
    if 0 <= i < u.len() && word_byte(u[i]) {
        word_end(u, i + 1)
    } else {
        i
    }
}

/// `UD-` (Unsloth Dynamic) stands just before index `s`.
pub open spec fn ud_before(u: Seq<u8>, s: int) -> bool {
    s >= 3 && u[s - 3] == 0x55 && u[s - 2] == 0x44 && u[s - 1] == 0x2D
}

/// ASCII bytes read as chars.
pub open spec fn ascii_chars(b: Seq<u8>) -> Seq<char> {
    b.map_values(|x: u8| x as char)
}

/// The upper-cased stem of a file name, as bytes.
pub open spec fn quant_stem(nb: Seq<u8>) -> Seq<u8> {
    upper_bytes(stem_bytes(nb))
}

/// Quantisation named in a file name (bytes `nb`): on the upper-cased name
/// without `.gguf`, the first `Q<digit>` or `IQ<digit>` and the letters,
/// digits and underscores after it, with a `UD-` just before it included;
/// without such a name, the first of `BF16`, `F16`, `F32`, `F8` that occurs
/// (`BF16` before `F16`, which it contains).
pub open spec fn quant_spec(nb: Seq<u8>) -> Option<Seq<char>> {
    let u = quant_stem(nb);
    match first_quant_start(u, 0) {
        Some(s) => Some(
            ascii_chars(
                u.subrange(
                    if ud_before(u, s) {
                        s - 3
                    } else {
                        s
                    },
                    word_end(u, s),
                ),
            ),
        ),
        None => if contains_seq(u, seq![0x42u8, 0x46u8, 0x31u8, 0x36u8]) {
            Some("BF16"@)
        } else if contains_seq(u, seq![0x46u8, 0x31u8, 0x36u8]) {
            Some("F16"@)
        } else if contains_seq(u, seq![0x46u8, 0x33u8, 0x32u8]) {
            Some("F32"@)
        } else if contains_seq(u, seq![0x46u8, 0x38u8]) {
            Some("F8"@)
        } else {
            None
        },
    }
}

/// Whether the scan for a `UD-` prefix can look at the three bytes before
/// the quantisation name: it cannot when they start in the middle of a
/// multi-byte character.
pub open spec fn quant_scan_ok_spec(nb: Seq<u8>) -> bool {
    let u = quant_stem(nb);
    match first_quant_start(u, 0) {
        Some(s) => !(s >= 3 && vstd::utf8::is_continuation_byte(u[s - 3])),
        None => true,
    }
}

fn stem_upper(name: &str) -> (u: Vec<u8>)
    ensures
        u@ == quant_stem(name.spec_bytes()),
{
    let nb = name.as_bytes();
    let mut end = nb.len();
    if nb.len() >= 5 && nb[nb.len() - 5] == 0x2E && nb[nb.len() - 4] == 0x67 && nb[nb.len() - 3]
        == 0x67 && nb[nb.len() - 2] == 0x75 && nb[nb.len() - 1] == 0x66 {
        assert(nb@.subrange(nb@.len() - 5, nb@.len() as int) =~= gguf_ext_bytes());
        end = nb.len() - 5;
    } else {
        assert(!has_suffix(nb@, gguf_ext_bytes())) by {
            if has_suffix(nb@, gguf_ext_bytes()) {
                let t = nb@.subrange(nb@.len() - 5, nb@.len() as int);
                assert(t[0] == nb@[nb@.len() - 5]);
                assert(t[1] == nb@[nb@.len() - 4]);
                assert(t[2] == nb@[nb@.len() - 3]);
                assert(t[3] == nb@[nb@.len() - 2]);
                assert(t[4] == nb@[nb@.len() - 1]);
            }
        }
        assert(nb@.take(nb@.len() as int) =~= nb@);
    }
    let ghost stem = stem_bytes(nb@);
    assert(stem =~= nb@.take(end as int));
    let mut u: Vec<u8> = Vec::new();
    let mut i: usize = 0;
    while i < end
        invariant
            end <= nb@.len(),
            i <= end,
            stem == nb@.take(end as int),
            u@ == upper_bytes(stem.take(i as int)),
        decreases end - i,
    {
        let b = nb[i];
        let c = if 0x61 <= b && b <= 0x7A {
            b - 32
        } else {
            b
        };
        u.push(c);
        i += 1;
        assert(upper_bytes(stem.take(i as int)) =~= upper_bytes(stem.take(i - 1 as int)).push(
            upper_byte(stem[i - 1]),
        ));
    }
    assert(stem.take(end as int) =~= stem);
    u
}

fn find_quant_start(u: &Vec<u8>) -> (r: Option<usize>)
    ensures
        match r {
            Some(s) => first_quant_start(u@, 0) == Some(s as int) && s < u@.len(),
            None => first_quant_start(u@, 0) is None,
        },
{
    let mut i: usize = 0;
    while i < u.len()
        invariant
            i <= u@.len(),
            u@.len() == u.len(),
            first_quant_start(u@, 0) == first_quant_start(u@, i as int),
        decreases u@.len() - i,
    {
        let start = (u[i] == 0x51 && u.len() - i > 1 && 0x30 <= u[i + 1] && u[i + 1] <= 0x39) || (u[i]
            == 0x49 && u.len() - i > 2 && u[i + 1] == 0x51 && 0x30 <= u[i + 2] && u[i + 2] <= 0x39);
        if start {
            return Some(i);
        }
        i += 1;
    }
    None
}

fn bytes_contain(u: &Vec<u8>, p: &[u8]) -> (r: bool)
    requires
        p@.len() > 0,
    ensures
        r == contains_seq(u@, p@),
{
    if p.len() > u.len() {
        assert forall|i: int| !crate::text::occurs_at(u@, p@, i) by {
        }
        return false;
    }
    let last = u.len() - p.len();
    let mut i: usize = 0;
    while i < last + 1
        invariant
            last == u@.len() - p@.len(),
            p@.len() > 0,
            u@.len() == u.len(),
            i <= last + 1,
            forall|j: int| 0 <= j < i ==> !crate::text::occurs_at(u@, p@, j),
        decreases last + 1 - i,
    {
        let mut k: usize = 0;
        let mut same = true;
        while k < p.len()
            invariant
                i <= last,
                last == u@.len() - p@.len(),
                u@.len() == u.len(),
                k <= p@.len(),
                same == forall|j: int| 0 <= j < k ==> u@[i + j] == p@[j],
            decreases p@.len() - k,
        {
            if u[i + k] != p[k] {
                same = false;
            }
            k += 1;
        }
        if same {
            assert(u@.subrange(i as int, i + p@.len()) =~= p@);
            assert(crate::text::occurs_at(u@, p@, i as int));
            return true;
        }
        assert(!crate::text::occurs_at(u@, p@, i as int)) by {
            if crate::text::occurs_at(u@, p@, i as int) {
                assert forall|j: int| 0 <= j < p@.len() implies u@[i + j] == p@[j] by {
                    assert(u@.subrange(i as int, i + p@.len())[j] == u@[i + j]);
                }
            }
        }
        i += 1;
    }
    assert forall|j: int| !crate::text::occurs_at(u@, p@, j) by {
        if 0 <= j < i {
        }
    }
    false
}


proof fn lemma_first_quant_start_props(u: Seq<u8>, j: int)
    requires
        0 <= j <= u.len(),
    ensures
        match first_quant_start(u, j) {
            Some(s) => j <= s < u.len() && quant_start(u, s) && forall|m: int|
                j <= m < s ==> !quant_start(u, m),
            None => forall|m: int| j <= m < u.len() ==> !quant_start(u, m),
        },
    decreases u.len() - j,
{
    if j < u.len() && !quant_start(u, j) {
        lemma_first_quant_start_props(u, j + 1);
    }
}

proof fn lemma_word_end_props(u: Seq<u8>, i: int)
    requires
        0 <= i <= u.len(),
    ensures
        i <= word_end(u, i) <= u.len(),
        forall|m: int| i <= m < word_end(u, i) ==> word_byte(u[m]),
        word_end(u, i) < u.len() ==> !word_byte(u[word_end(u, i)]),
    decreases u.len() - i,
{
    if i < u.len() && word_byte(u[i]) {
        lemma_word_end_props(u, i + 1);
    }
}

/// The quantisation named in a file name is one word of the name, upper
/// cased. When the name has a `Q` (or `q`) followed by a digit, a name is
/// found, and it is the text at some position `p` of the file name (upper
/// cased) such that: after an optional `UD-` (`k` = 3, else 0) it starts
/// with `Q<digit>` or `IQ<digit>`, the first such start in the name, and
/// the `UD-` is there whenever the name has one just before it (and a
/// `Q` start never follows an `I`: that is an `IQ` start); all its
/// bytes after that prefix are ASCII letters, digits or `_`; and the
/// byte right after it, if any, is none of those. So in
/// `model-Q4_K_M-00001-of-00002.gguf` it is `Q4_K_M`: the `-` ends it.
#[verifier::rlimit(30)]
pub proof fn lemma_quant_is_one_word(nb: Seq<u8>) -> (p: int)
    requires
        exists|i: int|
            0 <= i && i + 1 < nb.len() && (nb[i] == 0x51u8 || nb[i] == 0x71u8) && 0x30 <= #[trigger] nb[i
                + 1] <= 0x39,
    ensures
        quant_spec(nb) is Some,
        ({
            let q = quant_spec(nb).unwrap();
            let k: int = if q.len() >= 3 && upper_byte(nb[p]) == 0x55 && upper_byte(nb[p + 1]) == 0x44
                && nb[p + 2] == 0x2D {
                3
            } else {
                0
            };
            &&& 0 <= p && p + q.len() <= nb.len()
            &&& forall|j: int| 0 <= j < q.len() ==> q[j] == (upper_byte(#[trigger] nb[p + j]) as char)
            &&& forall|j: int|
                k <= j < q.len() ==> {
                    let b = upper_byte(#[trigger] nb[p + j]);
                    (0x41 <= b <= 0x5A) || (0x30 <= b <= 0x39) || b == 0x5F
                }
            &&& p + q.len() < nb.len() ==> {
                let b = nb[p + q.len()];
                !((0x41 <= b <= 0x5A) || (0x61 <= b <= 0x7A) || (0x30 <= b <= 0x39) || b == 0x5F)
            }
            &&& p + k + 1 < nb.len()
            &&& (upper_byte(nb[p + k]) == 0x51 && 0x30 <= nb[p + k + 1] <= 0x39) || (p + k + 2 < nb.len()
                && upper_byte(nb[p + k]) == 0x49 && upper_byte(nb[p + k + 1]) == 0x51 && 0x30 <= nb[p + k
                + 2] <= 0x39)
            &&& forall|i: int|
                0 <= i < p + k && i + 1 < nb.len() ==> !((nb[i] == 0x51 || nb[i] == 0x71) && 0x30
                    <= #[trigger] nb[i + 1] <= 0x39)
            &&& (p + k >= 3 && upper_byte(nb[p + k - 3]) == 0x55 && upper_byte(nb[p + k - 2]) == 0x44
                && nb[p + k - 1] == 0x2D) ==> k == 3
            &&& (p + k >= 1 && upper_byte(nb[p + k]) == 0x51) ==> upper_byte(nb[p + k - 1]) != 0x49
        }),
{
    let stem = stem_bytes(nb);
    let u = quant_stem(nb);
    let ext = gguf_ext_bytes();
    assert(u.len() == stem.len());
    assert forall|x: int| 0 <= x < u.len() implies u[x] == upper_byte(nb[x]) && stem[x] == nb[x] by {
    }
    // Past the stem there is only `.gguf`: no `Q`, no digit, no word byte but letters.
    assert forall|x: int| stem.len() <= x < nb.len() implies nb[x] == 0x2E || nb[x] == 0x67 || nb[x]
        == 0x75 || nb[x] == 0x66 by {
        if has_suffix(nb, ext) {
            let t = nb.subrange(nb.len() - 5, nb.len() as int);
            assert(t == ext);
            assert(nb[x] == t[x - (nb.len() - 5)]);
        }
    }
    let i0 = choose|i: int|
        0 <= i && i + 1 < nb.len() && (nb[i] == 0x51u8 || nb[i] == 0x71u8) && 0x30 <= #[trigger] nb[i + 1]
            <= 0x39;
    assert(i0 + 1 < u.len());
    assert(quant_start(u, i0));
    lemma_first_quant_start_props(u, 0);
    let s = first_quant_start(u, 0).unwrap();
    lemma_word_end_props(u, s);
    let e = word_end(u, s);
    // The digit after the start is a word byte, so the word goes past it.
    assert(e > s + 1);
    let a = if ud_before(u, s) {
        s - 3
    } else {
        s
    };
    let q = quant_spec(nb).unwrap();
    assert(q == ascii_chars(u.subrange(a, e)));
    assert(q.len() == e - a);
    let kk: int = if ud_before(u, s) {
        3
    } else {
        0
    };
    assert(a + kk == s);
    assert forall|j: int| 0 <= j < q.len() implies q[j] == (upper_byte(#[trigger] nb[a + j]) as char) by {
        assert(u.subrange(a, e)[j] == u[a + j]);
    }
    assert forall|j: int| kk <= j < q.len() implies {
        let b = upper_byte(#[trigger] nb[a + j]);
        (0x41 <= b <= 0x5A) || (0x30 <= b <= 0x39) || b == 0x5F
    } by {
        assert(word_byte(u[a + j]));
        assert(u[a + j] == upper_byte(nb[a + j]));
    }
    if e < nb.len() {
        let b = nb[e];
        if e < u.len() {
            assert(!word_byte(u[e]));
        }
    }
    if quant_start(u, s) && u[s] == 0x51 {
        assert(0x30 <= nb[s + 1] <= 0x39);
    }
    if !ud_before(u, s) {
        assert(upper_byte(nb[a]) == 0x51 || upper_byte(nb[a]) == 0x49);
    } else {
        assert(u[a] == 0x55 && u[a + 1] == 0x44 && u[a + 2] == 0x2D);
        assert(nb[a + 2] == 0x2D);
    }
    let k: int = if q.len() >= 3 && upper_byte(nb[a]) == 0x55 && upper_byte(nb[a + 1]) == 0x44 && nb[a
        + 2] == 0x2D {
        3
    } else {
        0
    };
    assert(k == kk);
    if s >= 1 && u[s] == 0x51 && u[s - 1] == 0x49 {
        assert(quant_start(u, s - 1));
    }
    assert(0 <= a && a + q.len() <= nb.len());
    assert(a + k + 1 < nb.len());
    assert((upper_byte(nb[a + k]) == 0x51 && 0x30 <= nb[a + k + 1] <= 0x39) || (a + k + 2 < nb.len()
        && upper_byte(nb[a + k]) == 0x49 && upper_byte(nb[a + k + 1]) == 0x51 && 0x30 <= nb[a + k + 2]
        <= 0x39));
    assert(a + q.len() < nb.len() ==> {
        let b = nb[a + q.len()];
        !((0x41 <= b <= 0x5A) || (0x61 <= b <= 0x7A) || (0x30 <= b <= 0x39) || b == 0x5F)
    });
    assert forall|i: int|
        0 <= i < a + kk && i + 1 < nb.len() implies !((nb[i] == 0x51 || nb[i] == 0x71) && 0x30
            <= #[trigger] nb[i + 1] <= 0x39) by {
        if (nb[i] == 0x51 || nb[i] == 0x71) && 0x30 <= nb[i + 1] <= 0x39 {
            assert(i + 1 < u.len());
            assert(quant_start(u, i));
        }
    }
    a
}


/// A format name that ends in a digit occurs in the upper-cased file name
/// exactly when it occurs in the upper-cased stem: `.gguf` holds no digit.
proof fn lemma_format_in_stem(nb: Seq<u8>, pat: Seq<u8>)
    requires
        pat.len() > 0,
        0x30 <= pat.last() <= 0x39,
    ensures
        contains_seq(upper_bytes(nb), pat) == contains_seq(quant_stem(nb), pat),
{
    let stem = stem_bytes(nb);
    let u = quant_stem(nb);
    let w = upper_bytes(nb);
    let ext = gguf_ext_bytes();
    assert forall|x: int| 0 <= x < u.len() implies u[x] == w[x] by {
    }
    assert forall|x: int| stem.len() <= x < nb.len() implies !(0x30 <= #[trigger] w[x] <= 0x39) by {
        if has_suffix(nb, ext) {
            let t = nb.subrange(nb.len() - 5, nb.len() as int);
            assert(t == ext);
            assert(nb[x] == t[x - (nb.len() - 5)]);
        }
    }
    if contains_seq(w, pat) {
        let i = choose|i: int| crate::text::occurs_at(w, pat, i);
        assert(w[i + pat.len() - 1] == w.subrange(i, i + pat.len())[pat.len() - 1]);
        assert(i + pat.len() <= u.len());
        assert(u.subrange(i, i + pat.len()) =~= w.subrange(i, i + pat.len()));
        assert(crate::text::occurs_at(u, pat, i));
    }
    if contains_seq(u, pat) {
        let i = choose|i: int| crate::text::occurs_at(u, pat, i);
        assert(u.subrange(i, i + pat.len()) =~= w.subrange(i, i + pat.len()));
        assert(crate::text::occurs_at(w, pat, i));
    }
}

/// A file name without a `Q`/`q` followed by a digit names a float format,
/// if any, by the first of these that its upper-cased text contains:
/// `BF16`, then `F16`, `F32`, `F8`; with none of them it names no
/// quantisation.
pub proof fn lemma_quant_float_formats(nb: Seq<u8>)
    requires
        forall|i: int|
            0 <= i && i + 1 < nb.len() ==> !((nb[i] == 0x51u8 || nb[i] == 0x71u8) && 0x30
                <= #[trigger] nb[i + 1] <= 0x39),
    ensures
        ({
            let w = upper_bytes(nb);
            let pat_bf = seq![0x42u8, 0x46u8, 0x31u8, 0x36u8];
            let pat_f16 = seq![0x46u8, 0x31u8, 0x36u8];
            let pat_f32 = seq![0x46u8, 0x33u8, 0x32u8];
            let pat_f8 = seq![0x46u8, 0x38u8];
            &&& contains_seq(w, pat_bf) ==> quant_spec(nb) == Some("BF16"@)
            &&& !contains_seq(w, pat_bf) && contains_seq(w, pat_f16) ==> quant_spec(nb) == Some("F16"@)
            &&& !contains_seq(w, pat_bf) && !contains_seq(w, pat_f16) && contains_seq(w, pat_f32) ==> quant_spec(nb)
                == Some("F32"@)
            &&& !contains_seq(w, pat_bf) && !contains_seq(w, pat_f16) && !contains_seq(w, pat_f32) && contains_seq(
                w,
                pat_f8,
            ) ==> quant_spec(nb) == Some("F8"@)
            &&& !contains_seq(w, pat_bf) && !contains_seq(w, pat_f16) && !contains_seq(w, pat_f32)
                && !contains_seq(w, pat_f8) ==> quant_spec(nb) is None
        }),
{
    let u = quant_stem(nb);
    let stem = stem_bytes(nb);
    assert forall|x: int| 0 <= x < u.len() implies u[x] == upper_byte(nb[x]) by {
    }
    lemma_first_quant_start_props(u, 0);
    if first_quant_start(u, 0) is Some {
        let s = first_quant_start(u, 0).unwrap();
        assert(quant_start(u, s));
        let q = if u[s] == 0x51 {
            s
        } else {
            s + 1
        };
        assert(u[q] == 0x51 && 0x30 <= u[q + 1] <= 0x39 && q + 1 < u.len());
        assert(0 <= q && q + 1 < nb.len() && (nb[q] == 0x51u8 || nb[q] == 0x71u8) && 0x30 <= nb[q + 1]
            <= 0x39);
        assert(false);
    }
    assert(first_quant_start(u, 0) is None);
    lemma_format_in_stem(nb, seq![0x42u8, 0x46u8, 0x31u8, 0x36u8]);
    lemma_format_in_stem(nb, seq![0x46u8, 0x31u8, 0x36u8]);
    lemma_format_in_stem(nb, seq![0x46u8, 0x33u8, 0x32u8]);
    lemma_format_in_stem(nb, seq![0x46u8, 0x38u8]);
}

/// Whether [`quant_from_filename`] can scan `name`: false exactly when the
/// three bytes before the quantisation name start inside a multi-byte
/// character.
pub fn quant_scan_ok(name: &str) -> (r: bool)
    ensures
        r == quant_scan_ok_spec(name.spec_bytes()),
{
    let u = stem_upper(name);
    match find_quant_start(&u) {
        Some(s) => !(s >= 3 && 0x80 <= u[s - 3] && u[s - 3] <= 0xBF),
        None => true,
    }
}

/// Quantisation named in a GGUF file name: `model-Q4_K_M.gguf` → `Q4_K_M`.
/// Knows the `UD-` prefix (Unsloth Dynamic), IQ quantisations and the
/// F16/BF16/F32/F8 formats.
pub fn quant_from_filename(name: &str) -> (r: Option<String>)
    requires
        quant_scan_ok_spec(name.spec_bytes()),
    ensures
        match quant_spec(name.spec_bytes()) {
            Some(q) => r matches Some(s) && s@ == q,
            None => r is None,
        },
{
    let u = stem_upper(name);
    match find_quant_start(&u) {
        Some(s) => {
            let mut end = s;
            while end < u.len() && ((0x41 <= u[end] && u[end] <= 0x5A) || (0x61 <= u[end] && u[end]
                <= 0x7A) || (0x30 <= u[end] && u[end] <= 0x39) || u[end] == 0x5F)
                invariant
                    s <= end <= u@.len(),
                    word_end(u@, s as int) == word_end(u@, end as int),
                decreases u@.len() - end,
            {
                end += 1;
            }
            let from = if s >= 3 && u[s - 3] == 0x55 && u[s - 2] == 0x44 && u[s - 1] == 0x2D {
                s - 3
            } else {
                s
            };
            let mut out = String::new();
            let mut i = from;
            while i < end
                invariant
                    from <= i <= end <= u@.len(),
                    out@ == ascii_chars(u@.subrange(from as int, i as int)),
                decreases end - i,
            {
                push_char(&mut out, u[i] as char);
                i += 1;
                assert(ascii_chars(u@.subrange(from as int, i as int)) =~= ascii_chars(
                    u@.subrange(from as int, i - 1 as int),
                ).push(u@[i - 1] as char));
            }
            Some(out)
        },
        None => {
            if bytes_contain(&u, &[0x42u8, 0x46u8, 0x31u8, 0x36u8]) {
                Some(from_chars(&to_chars("BF16")))
            } else if bytes_contain(&u, &[0x46u8, 0x31u8, 0x36u8]) {
                Some(from_chars(&to_chars("F16")))
            } else if bytes_contain(&u, &[0x46u8, 0x33u8, 0x32u8]) {
                Some(from_chars(&to_chars("F32")))
            } else if bytes_contain(&u, &[0x46u8, 0x38u8]) {
                Some(from_chars(&to_chars("F8")))
            } else {
                None
            }
        },
    }
}

} // verus!
