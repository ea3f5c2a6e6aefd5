//! Import material parameters from other engines and formats: MaterialX
//! XML, glTF PBR metallic-roughness JSON, plain JSON, and custom adapters.
//!
//! The readers here locate each property in the source text and hand back
//! its text; turning the numeric text into numbers is left to the caller.
use vstd::prelude::*;
use vstd::utf8::*;

use crate::text_scan::{
    chars_eq, chars_from, chars_vec, find_char_from, find_from, find_from_exec, lemma_find_from,
    starts_with, starts_with_exec, string_from_range, trim, trim_chars, trim_start,
    trim_start_chars, contains_seq, occurs_at, is_unicode_whitespace, leading_ws_end,
};

verus! {

/// Source for material import. File sources carry the path as text.
#[derive(Debug, Clone)]
pub enum ImportSource {
    /// MaterialX XML file.
    MaterialXFile(String),
    /// MaterialX XML string.
    MaterialXString(String),
    /// glTF material file.
    GltfFile(String),
    /// glTF material JSON string.
    GltfString(String),
    /// Generic JSON parameters.
    JsonString(String),
    /// Custom adapter.
    Custom { adapter_name: String, data: Vec<u8> },
}

/// Errors during material import.
#[derive(Debug, Clone)]
pub enum ImportError {
    /// File not found.
    FileNotFound(String),
    /// Unsupported format.
    UnsupportedFormat(String),
    /// Parse error.
    ParseError(String),
    /// Missing required property.
    MissingProperty(String),
    /// Invalid property value.
    InvalidValue { property: String, value: String, expected: String },
    /// IO error.
    IoError(String),
}

/// The character content of an `ImportError`.
pub enum ImportErrorText {
    FileNotFound(Seq<char>),
    UnsupportedFormat(Seq<char>),
    ParseError(Seq<char>),
    MissingProperty(Seq<char>),
    InvalidValue { property: Seq<char>, value: Seq<char>, expected: Seq<char> },
    IoError(Seq<char>),
}

impl View for ImportError {
    type V = ImportErrorText;

    open spec fn view(&self) -> ImportErrorText {
        match self {
            ImportError::FileNotFound(s) => ImportErrorText::FileNotFound(s@),
            ImportError::UnsupportedFormat(s) => ImportErrorText::UnsupportedFormat(s@),
            ImportError::ParseError(s) => ImportErrorText::ParseError(s@),
            ImportError::MissingProperty(s) => ImportErrorText::MissingProperty(s@),
            ImportError::InvalidValue { property, value, expected } => ImportErrorText::InvalidValue {
                property: property@,
                value: value@,
                expected: expected@,
            },
            ImportError::IoError(s) => ImportErrorText::IoError(s@),
        }
    }
}

/// A material as read from a source: its name and the text of each
/// property that the source sets (`None` where it sets none).
#[derive(Debug, Clone)]
pub struct ImportedMaterial {
    /// Material name (`"imported"` when the source names none).
    pub name: String,
    /// Base color, as comma-separated components.
    pub base_color: Option<String>,
    /// Metalness.
    pub metallic: Option<String>,
    /// Roughness.
    pub roughness: Option<String>,
    /// Index of refraction.
    pub ior: Option<String>,
    /// Transmission.
    pub transmission: Option<String>,
}

/// The character content of an `ImportedMaterial`.
pub struct MaterialText {
    pub name: Seq<char>,
    pub base_color: Option<Seq<char>>,
    pub metallic: Option<Seq<char>>,
    pub roughness: Option<Seq<char>>,
    pub ior: Option<Seq<char>>,
    pub transmission: Option<Seq<char>>,
}

/// The characters of an optional string.
pub open spec fn opt_chars(o: Option<String>) -> Option<Seq<char>> {
    match o {
        Some(s) => Some(s@),
        None => None,
    }
}

impl View for ImportedMaterial {
    type V = MaterialText;

    open spec fn view(&self) -> MaterialText {
        MaterialText {
            name: self.name@,
            base_color: opt_chars(self.base_color),
            metallic: opt_chars(self.metallic),
            roughness: opt_chars(self.roughness),
            ior: opt_chars(self.ior),
            transmission: opt_chars(self.transmission),
        }
    }
}

/// The character content of an import's result.
pub open spec fn import_view(r: Result<ImportedMaterial, ImportError>) -> Result<
    MaterialText,
    ImportErrorText,
> {
    match r {
        Ok(m) => Ok(m@),
        Err(e) => Err(e@),
    }
}

/// Trait for custom import adapters, implemented by users of the library.
/// An adapter answers to one name, and what it makes of some data depends
/// on the adapter and the data alone. A verified implementation states both
/// by defining `spec_name` and `spec_import`; left undefined, they are some
/// name and some result that nothing is known of.
pub trait ImportAdapter {
    /// The name this adapter answers to.
    open spec fn spec_name(&self) -> Seq<char> {
        arbitrary()
    }

    /// What this adapter makes of `data`.
    open spec fn spec_import(&self, data: Seq<u8>) -> Result<MaterialText, ImportErrorText> {
        arbitrary()
    }

    /// Adapter name.
    fn name(&self) -> (r: &str)
        ensures
            r@ == self.spec_name(),
    ;

    /// Supported file extensions.
    fn supported_extensions(&self) -> Vec<String>;

    /// Import material from raw data.
    fn import(&self, data: &[u8]) -> (r: Result<ImportedMaterial, ImportError>)
        ensures
            import_view(r) == self.spec_import(data@),
    ;

    /// Check if adapter can handle this data (by default: it is not empty).
    fn can_handle(&self, data: &[u8]) -> (r: bool)
        default_ensures
            r == (data@.len() > 0),
    {
        data.len() > 0
    }
}

// ----------------------------------------------------------------------------
// Text readers
// ----------------------------------------------------------------------------

/// The value of the first `attr="..."` attribute in `x`.
pub open spec fn spec_extract_xml_attribute(x: Seq<char>, attr: Seq<char>) -> Option<Seq<char>> {
    let pat = attr + seq!['=', '"'];
    match find_from(x, pat, 0) {
        None => None,
        Some(start) => {
            let vs = start + pat.len();
            match find_from(x, seq!['"'], vs) {
                None => None,
                Some(e) => Some(x.subrange(vs, e)),
            }
        },
    }
}

/// The `value="..."` of the tag that holds the first `name="<name>"` in
/// `x`; the tag runs from that attribute to the next `/>` (or the end).
pub open spec fn spec_extract_xml_input(x: Seq<char>, name: Seq<char>) -> Option<Seq<char>> {
    let pat = seq!['n', 'a', 'm', 'e', '=', '"'] + name + seq!['"'];
    match find_from(x, pat, 0) {
        None => None,
        Some(pos) => {
            let tag_end = match find_from(x, seq!['/', '>'], pos) {
                Some(e) => e,
                None => x.len() as int,
            };
            let tag = x.subrange(pos, tag_end);
            match find_from(tag, seq!['v', 'a', 'l', 'u', 'e', '=', '"'], 0) {
                None => None,
                Some(vs) => {
                    let st = vs + 7;
                    match find_from(tag, seq!['"'], st) {
                        None => None,
                        Some(e) => Some(tag.subrange(st, e)),
                    }
                },
            }
        },
    }
}

/// The text after the first `"<key>":` in `x`.
pub open spec fn spec_json_after_key(x: Seq<char>, key: Seq<char>) -> Option<Seq<char>> {
    let pat = seq!['"'] + key + seq!['"', ':'];
    match find_from(x, pat, 0) {
        None => None,
        Some(pos) => Some(x.subrange(pos + pat.len(), x.len() as int)),
    }
}

/// The string value of the first `"<key>":` in `x`: after whitespace, a
/// quoted string (no escapes are interpreted).
pub open spec fn spec_extract_json_string(x: Seq<char>, key: Seq<char>) -> Option<Seq<char>> {
    match spec_json_after_key(x, key) {
        None => None,
        Some(after) => {
            let t = trim_start(after);
            if t.len() > 0 && t[0] == '"' {
                match find_from(t, seq!['"'], 1) {
                    None => None,
                    Some(e) => Some(t.subrange(1, e)),
                }
            } else {
                None
            }
        },
    }
}

/// Whether `char::is_numeric` holds of `c` (Unicode general category Nd,
/// Nl or No).
pub uninterp spec fn char_is_numeric(c: char) -> bool;

/// Tests a character with `char::is_numeric`: whether its general category
/// in the Unicode Character Database is Nd, Nl or No. Among ASCII
/// characters exactly the digits `0`-`9` have such a category.
#[verifier::external_body]
pub(crate) fn is_numeric(c: char) -> (r: bool)
    ensures
        r == char_is_numeric(c),
        (c as u32) < 128 ==> (r <==> ('0' <= c && c <= '9')),
{
    c.is_numeric()
}

/// A character that may appear in the numeric text after a JSON key.
pub open spec fn is_number_char(c: char) -> bool {
    char_is_numeric(c) || c == '.' || c == '-'
}

/// The first index `>= i` in `s` that holds no number character.
pub open spec fn number_end(s: Seq<char>, i: int) -> int
    decreases s.len() - i,
{
    if i < 0 || i >= s.len() {
        i
    } else if is_number_char(s[i]) {
        number_end(s, i + 1)
    } else {
        i
    }
}

/// The numeric text after the first `"<key>":` in `x`: after whitespace,
/// the longest run of number characters, if it is not empty.
pub open spec fn spec_extract_json_number_text(x: Seq<char>, key: Seq<char>) -> Option<Seq<char>> {
    match spec_json_after_key(x, key) {
        None => None,
        Some(after) => {
            let t = trim_start(after);
            let end = number_end(t, 0);
            if end > 0 {
                Some(t.subrange(0, end))
            } else {
                None
            }
        },
    }
}

/// The text between the first `[` after the first `"<key>":` and the
/// next `]`.
pub open spec fn spec_extract_json_array(x: Seq<char>, key: Seq<char>) -> Option<Seq<char>> {
    match spec_json_after_key(x, key) {
        None => None,
        Some(after) => match find_from(after, seq!['['], 0) {
            None => None,
            Some(start) => match find_from(after, seq![']'], start) {
                None => None,
                Some(end) => Some(after.subrange(start + 1, end)),
            },
        },
    }
}

/// Index of the `}` that closes a brace group, scanning from `j` with
/// `depth` groups open.
pub open spec fn brace_close(s: Seq<char>, j: int, depth: nat) -> Option<int>
    decreases s.len() - j,
{
    if j < 0 || j >= s.len() {
        None
    } else if s[j] == '{' {
        brace_close(s, j + 1, depth + 1)
    } else if s[j] == '}' {
        if depth <= 1 {
            Some(j)
        } else {
            brace_close(s, j + 1, (depth - 1) as nat)
        }
    } else {
        brace_close(s, j + 1, depth)
    }
}

/// The brace-balanced object that starts at the first `{` after the first
/// `"<key>":`, braces included.
pub open spec fn spec_extract_json_object(x: Seq<char>, key: Seq<char>) -> Option<Seq<char>> {
    match spec_json_after_key(x, key) {
        None => None,
        Some(after) => match find_from(after, seq!['{'], 0) {
            None => None,
            Some(start) => match brace_close(after, start + 1, 1) {
                None => None,
                Some(close) => Some(after.subrange(start, close + 1)),
            },
        },
    }
}

/// The characters of an optional string, as a spec value.
pub open spec fn opt_view(o: Option<String>) -> Option<Seq<char>> {
    opt_chars(o)
}

fn concat3(a: Vec<char>, b: &Vec<char>, c: Vec<char>) -> (r: Vec<char>)
    ensures
        r@ == a@ + b@ + c@,
{
    let mut r = a;
    let mut i: usize = 0;
    let ghost a0 = r@;
    while i < b.len()
        invariant
            i <= b@.len(),
            r@ == a0 + b@.subrange(0, i as int),
        decreases b@.len() - i,
    {
        r.push(b[i]);
        assert(b@.subrange(0, i + 1) =~= b@.subrange(0, i as int).push(b@[i as int]));
        i = i + 1;
    }
    let mut j: usize = 0;
    let ghost r0 = r@;
    while j < c.len()
        invariant
            j <= c@.len(),
            r@ == r0 + c@.subrange(0, j as int),
        decreases c@.len() - j,
    {
        r.push(c[j]);
        assert(c@.subrange(0, j + 1) =~= c@.subrange(0, j as int).push(c@[j as int]));
        j = j + 1;
    }
    assert(b@.subrange(0, b@.len() as int) =~= b@);
    assert(c@.subrange(0, c@.len() as int) =~= c@);
    r
}

/// Extract an XML attribute value (simple, regex-free).
pub fn extract_xml_attribute(xml: &str, attr: &str) -> (r: Option<String>)
    ensures
        opt_view(r) == spec_extract_xml_attribute(xml@, attr@),
{
    let x = chars_vec(xml);
    let a = chars_vec(attr);
    let tail: Vec<char> = vec!['=', '"'];
    let pat = concat3(a, &Vec::new(), tail);
    assert(pat@ =~= attr@ + seq!['=', '"']);
    match find_from_exec(&x, &pat, 0) {
        None => None,
        Some(start) => {
            proof {
                lemma_find_from(x@, pat@, 0);
                assert(start + pat@.len() <= x@.len());
            }
            let xl = x.len();
            assert(start + pat@.len() <= xl);
            let vs = start + pat.len();
            match find_char_from(&x, '"', vs) {
                None => None,
                Some(e) => {
                    proof {
                        lemma_find_from(x@, seq!['"'], vs as int);
                    }
                    Some(string_from_range(&x, vs, e))
                },
            }
        },
    }
}

/// Extract an XML input value: `value="..."` in the tag named `name`.
pub fn extract_xml_input(xml: &str, name: &str) -> (r: Option<String>)
    ensures
        opt_view(r) == spec_extract_xml_input(xml@, name@),
{
    let x = chars_vec(xml);
    let nm = chars_vec(name);
    let head: Vec<char> = vec!['n', 'a', 'm', 'e', '=', '"'];
    let tail: Vec<char> = vec!['"'];
    let pat = concat3(head, &nm, tail);
    assert(pat@ =~= seq!['n', 'a', 'm', 'e', '=', '"'] + name@ + seq!['"']);
    match find_from_exec(&x, &pat, 0) {
        None => None,
        Some(pos) => {
            proof {
                lemma_find_from(x@, pat@, 0);
            }
            let close: Vec<char> = vec!['/', '>'];
            assert(close@ =~= seq!['/', '>']);
            let tag_end = match find_from_exec(&x, &close, pos) {
                Some(e) => {
                    proof {
                        lemma_find_from(x@, close@, pos as int);
                    }
                    e
                },
                None => x.len(),
            };
            let tag = crate::text_scan::chars_range(&x, pos, tag_end);
            let value_eq: Vec<char> = vec!['v', 'a', 'l', 'u', 'e', '=', '"'];
            assert(value_eq@ =~= seq!['v', 'a', 'l', 'u', 'e', '=', '"']);
            match find_from_exec(&tag, &value_eq, 0) {
                None => None,
                Some(vs) => {
                    proof {
                        lemma_find_from(tag@, value_eq@, 0);
                    }
                    let st = vs + 7;
                    match find_char_from(&tag, '"', st) {
                        None => None,
                        Some(e) => {
                            proof {
                                lemma_find_from(tag@, seq!['"'], st as int);
                            }
                            Some(string_from_range(&tag, st, e))
                        },
                    }
                },
            }
        },
    }
}

/// The characters after the first `"<key>":`.
fn json_after_key(x: &Vec<char>, key: &str) -> (r: Option<Vec<char>>)
    ensures
        r matches Some(v) ==> spec_json_after_key(x@, key@) == Some(v@),
        r is None ==> spec_json_after_key(x@, key@) is None,
{
    let k = chars_vec(key);
    let head: Vec<char> = vec!['"'];
    let tail: Vec<char> = vec!['"', ':'];
    let pat = concat3(head, &k, tail);
    assert(pat@ =~= seq!['"'] + key@ + seq!['"', ':']);
    match find_from_exec(x, &pat, 0) {
        None => None,
        Some(pos) => {
            proof {
                lemma_find_from(x@, pat@, 0);
                assert(pos + pat@.len() <= x@.len());
            }
            let xl = x.len();
            assert(pos + pat@.len() <= xl);
            Some(chars_from(x, pos + pat.len()))
        },
    }
}

/// Extract a JSON string value.
pub fn extract_json_string(json: &str, key: &str) -> (r: Option<String>)
    ensures
        opt_view(r) == spec_extract_json_string(json@, key@),
{
    let x = chars_vec(json);
    match json_after_key(&x, key) {
        None => None,
        Some(after) => {
            let t = trim_start_chars(&after);
            if t.len() > 0 && t[0] == '"' {
                match find_char_from(&t, '"', 1) {
                    None => None,
                    Some(e) => {
                        proof {
                            lemma_find_from(t@, seq!['"'], 1);
                        }
                        Some(string_from_range(&t, 1, e))
                    },
                }
            } else {
                None
            }
        },
    }
}

/// Extract the numeric text of a JSON number value.
pub fn extract_json_number_text(json: &str, key: &str) -> (r: Option<String>)
    ensures
        opt_view(r) == spec_extract_json_number_text(json@, key@),
{
    let x = chars_vec(json);
    match json_after_key(&x, key) {
        None => None,
        Some(after) => {
            let t = trim_start_chars(&after);
            let mut end: usize = 0;
            while end < t.len() && (is_numeric(t[end]) || t[end] == '.' || t[end] == '-')
                invariant
                    end <= t@.len(),
                    number_end(t@, 0) == number_end(t@, end as int),
                decreases t@.len() - end,
            {
                end = end + 1;
            }
            if end > 0 {
                Some(string_from_range(&t, 0, end))
            } else {
                None
            }
        },
    }
}

/// Extract a JSON array as the text between its brackets.
pub fn extract_json_array(json: &str, key: &str) -> (r: Option<String>)
    ensures
        opt_view(r) == spec_extract_json_array(json@, key@),
{
    let x = chars_vec(json);
    match json_after_key(&x, key) {
        None => None,
        Some(after) => match find_char_from(&after, '[', 0) {
            None => None,
            Some(start) => {
                proof {
                    lemma_find_from(after@, seq!['['], 0);
                }
                match find_char_from(&after, ']', start) {
                    None => None,
                    Some(end) => {
                        proof {
                            lemma_find_from(after@, seq![']'], start as int);
                            assert(after@.subrange(start as int, start + 1)[0] == after@[start as int]);
                            assert(after@.subrange(end as int, end + 1)[0] == after@[end as int]);
                        }
                        Some(string_from_range(&after, start + 1, end))
                    },
                }
            },
        },
    }
}

/// Extract a JSON object as string, braces included.
pub fn extract_json_object(json: &str, key: &str) -> (r: Option<String>)
    ensures
        opt_view(r) == spec_extract_json_object(json@, key@),
{
    let x = chars_vec(json);
    match json_after_key(&x, key) {
        None => None,
        Some(after) => match find_char_from(&after, '{', 0) {
            None => None,
            Some(start) => {
                proof {
                    lemma_find_from(after@, seq!['{'], 0);
                }
                let al = after.len();
                assert(start < al);
                let mut depth: usize = 1;
                let mut j: usize = start + 1;
                while j < after.len()
                    invariant
                        spec_json_after_key(json@, key@) == Some(after@),
                        find_from(after@, seq!['{'], 0) == Some(start as int),
                        start < after@.len(),
                        start + 1 <= j <= after@.len(),
                        1 <= depth <= j - start,
                        brace_close(after@, start + 1, 1) == brace_close(after@, j as int, depth as nat),
                    decreases after@.len() - j,
                {
                    let c = after[j];
                    if c == '{' {
                        depth = depth + 1;
                    } else if c == '}' {
                        if depth <= 1 {
                            assert(brace_close(after@, j as int, depth as nat) == Some(j as int));
                            let r = string_from_range(&after, start, j + 1);
                            assert(spec_json_after_key(json@, key@) == Some(after@));
                            assert(find_from(after@, seq!['{'], 0) == Some(start as int));
                            assert(brace_close(after@, start + 1, 1) == Some(j as int));
                            assert(spec_extract_json_object(json@, key@) == Some(after@.subrange(start as int, j + 1)));
                            return Some(r);
                        }
                        depth = depth - 1;
                    }
                    j = j + 1;
                }
                None
            },
        },
    }
}

// ----------------------------------------------------------------------------
// Format readers
// ----------------------------------------------------------------------------

/// `Some(s)` for a found text, and the default otherwise.
pub open spec fn or_default(o: Option<Seq<char>>, d: Seq<char>) -> Seq<char> {
    match o {
        Some(s) => s,
        None => d,
    }
}

/// The name given to a material whose source names none.
pub open spec fn default_material_name() -> Seq<char> {
    seq!['i', 'm', 'p', 'o', 'r', 't', 'e', 'd']
}

/// What a MaterialX document sets.
pub open spec fn spec_parse_materialx(x: Seq<char>) -> MaterialText {
    MaterialText {
        name: or_default(
            spec_extract_xml_attribute(x, seq!['n', 'a', 'm', 'e']),
            default_material_name(),
        ),
        base_color: spec_extract_xml_input(x, "base_color"@),
        metallic: spec_extract_xml_input(x, "metalness"@),
        roughness: spec_extract_xml_input(x, "specular_roughness"@),
        ior: spec_extract_xml_input(x, "specular_IOR"@),
        transmission: spec_extract_xml_input(x, "transmission"@),
    }
}

/// What a glTF material sets: the PBR section's base color factor, metallic
/// and roughness factors, and the usual glTF index of refraction `1.5`.
pub open spec fn spec_parse_gltf(x: Seq<char>) -> MaterialText {
    let pbr = spec_extract_json_object(x, "pbrMetallicRoughness"@);
    MaterialText {
        name: or_default(spec_extract_json_string(x, seq!['n', 'a', 'm', 'e']), default_material_name()),
        base_color: match pbr {
            Some(p) => spec_extract_json_array(p, "baseColorFactor"@),
            None => None,
        },
        metallic: match pbr {
            Some(p) => spec_extract_json_number_text(p, "metallicFactor"@),
            None => None,
        },
        roughness: match pbr {
            Some(p) => spec_extract_json_number_text(p, "roughnessFactor"@),
            None => None,
        },
        ior: Some(seq!['1', '.', '5']),
        transmission: None,
    }
}

/// What a plain JSON parameter object sets.
pub open spec fn spec_parse_json(x: Seq<char>) -> MaterialText {
    MaterialText {
        name: or_default(spec_extract_json_string(x, seq!['n', 'a', 'm', 'e']), default_material_name()),
        base_color: spec_extract_json_array(x, "baseColor"@),
        metallic: spec_extract_json_number_text(x, "metallic"@),
        roughness: spec_extract_json_number_text(x, "roughness"@),
        ior: spec_extract_json_number_text(x, "ior"@),
        transmission: spec_extract_json_number_text(x, "transmission"@),
    }
}

/// A run of number characters from `i` up to `n`, where a character that is
/// no number character stands, ends at `n`.
proof fn lemma_number_run(t: Seq<char>, n: int, i: int)
    requires
        0 <= i <= n < t.len(),
        forall|k: int| i <= k < n ==> is_number_char(#[trigger] t[k]),
        !is_number_char(t[n]),
    ensures
        number_end(t, i) == n,
    decreases n - i,
{
    if i < n {
        lemma_number_run(t, n, i + 1);
    }
}

/// An occurrence of `p` at `k` with none before it is the first.
proof fn lemma_first_occurrence(h: Seq<char>, p: Seq<char>, k: int)
    requires
        occurs_at(h, p, k),
        forall|j: int| 0 <= j < k ==> !occurs_at(h, p, j),
    ensures
        find_from(h, p, 0) == Some(k),
{
    lemma_find_from(h, p, 0);
}

/// Plain JSON import takes the roughness from the `"roughness"` key and no
/// other: in `{"metallic": a, "roughness": b` followed by more text, where
/// `a` holds no quote and `b` is a run of number characters that does not
/// start with whitespace and is followed by a character that is no number
/// character, the imported roughness is `b`, whatever `a` is.
pub proof fn lemma_json_roughness(a: Seq<char>, b: Seq<char>, c: char, rest: Seq<char>)
    requires
        forall|i: int| 0 <= i < a.len() ==> #[trigger] a[i] != '"',
        b.len() > 0,
        forall|i: int| 0 <= i < b.len() ==> is_number_char(#[trigger] b[i]),
        !is_unicode_whitespace(b[0]),
        !is_number_char(c),
    ensures
        spec_parse_json(
            "{\"metallic\": "@ + a + ", \"roughness\": "@ + b + seq![c] + rest,
        ).roughness == Some(b),
{
    reveal_strlit("{\"metallic\": ");
    reveal_strlit(", \"roughness\": ");
    reveal_strlit("roughness");
    let l1 = "{\"metallic\": "@;
    let l2 = ", \"roughness\": "@;
    let x = l1 + a + l2 + b + seq![c] + rest;
    let pat = seq!['"'] + "roughness"@ + seq!['"', ':'];
    assert(l1.len() == 13);
    assert(l2.len() == 15);
    assert(pat.len() == 12);
    let p: int = 15 + a.len() as int;
    assert(x.subrange(p, p + 12) =~= pat);
    assert forall|j: int| 0 <= j < p implies !occurs_at(x, pat, j) by {
        if occurs_at(x, pat, j) {
            assert(x.subrange(j, j + 12)[0] == pat[0]);
            assert(x.subrange(j, j + 12)[1] == pat[1]);
            assert(x[j] == '"');
            assert(x[j + 1] == 'r');
            if j < 13 {
                assert(x[j] == l1[j]);
                assert(x[j + 1] == l1[j + 1]);
            } else if j < 13 + a.len() {
                assert(x[j] == a[j - 13]);
            } else {
                assert(x[j] == l2[j - 13 - a.len()]);
            }
        }
    }
    lemma_first_occurrence(x, pat, p);
    let after = x.subrange(p + 12, x.len() as int);
    assert(after =~= seq![' '] + b + seq![c] + rest);
    assert(is_unicode_whitespace(after[0]));
    assert(after[1] == b[0]);
    assert(leading_ws_end(after, 1) == 1);
    assert(leading_ws_end(after, 0) == 1);
    let t = trim_start(after);
    assert(t =~= b + seq![c] + rest);
    assert(t[b.len() as int] == c);
    assert forall|k: int| 0 <= k < b.len() implies is_number_char(#[trigger] t[k]) by {
        assert(t[k] == b[k]);
    }
    lemma_number_run(t, b.len() as int, 0);
    assert(t.subrange(0, b.len() as int) =~= b);
}

/// The text `{"<key>": ` + `v`, a JSON object whose first key is `key`.
pub open spec fn json_first_key(key: Seq<char>, v: Seq<char>) -> Seq<char> {
    seq!['{', '"'] + key + seq!['"', ':', ' '] + v
}

/// The text after the first key of `json_first_key(key, v)` is `v` after
/// one space.
proof fn lemma_json_first_key_after(key: Seq<char>, v: Seq<char>)
    ensures
        spec_json_after_key(json_first_key(key, v), key) == Some(seq![' '] + v),
{
    let x = json_first_key(key, v);
    let pat = seq!['"'] + key + seq!['"', ':'];
    let m: int = pat.len() as int;
    assert(x.subrange(1, 1 + m) =~= pat);
    assert(!occurs_at(x, pat, 0)) by {
        if occurs_at(x, pat, 0) {
            assert(x.subrange(0, pat.len() as int)[0] == pat[0]);
        }
    }
    lemma_first_occurrence(x, pat, 1);
    assert(x.subrange(1 + m, x.len() as int) =~= seq![' '] + v);
}

/// The numeric text under the first key of a JSON object is the run of
/// number characters after it: for `{"<key>": b` followed by a character
/// that is no number character, where `b` is a run of number characters
/// that does not start with whitespace, it is `b`.
pub proof fn lemma_json_number_first_key(key: Seq<char>, b: Seq<char>, c: char, rest: Seq<char>)
    requires
        b.len() > 0,
        forall|i: int| 0 <= i < b.len() ==> is_number_char(#[trigger] b[i]),
        !is_unicode_whitespace(b[0]),
        !is_number_char(c),
    ensures
        spec_extract_json_number_text(json_first_key(key, b + seq![c] + rest), key) == Some(b),
{
    let v = b + seq![c] + rest;
    lemma_json_first_key_after(key, v);
    let after = seq![' '] + v;
    assert(after[1] == b[0]);
    assert(leading_ws_end(after, 1) == 1);
    assert(leading_ws_end(after, 0) == 1);
    let t = trim_start(after);
    assert(t =~= v);
    assert(t[b.len() as int] == c);
    assert forall|k: int| 0 <= k < b.len() implies is_number_char(#[trigger] t[k]) by {
        assert(t[k] == b[k]);
    }
    lemma_number_run(t, b.len() as int, 0);
    assert(t.subrange(0, b.len() as int) =~= b);
}

/// Plain JSON import reads each number field from its own key: a JSON
/// object whose first key is `"metallic"`, `"roughness"`, `"ior"` or
/// `"transmission"`, with the number text `b` under it, imports `b` as
/// that field.
pub proof fn lemma_json_number_fields(b: Seq<char>, c: char, rest: Seq<char>)
    requires
        b.len() > 0,
        forall|i: int| 0 <= i < b.len() ==> is_number_char(#[trigger] b[i]),
        !is_unicode_whitespace(b[0]),
        !is_number_char(c),
    ensures
        spec_parse_json(json_first_key("metallic"@, b + seq![c] + rest)).metallic == Some(b),
        spec_parse_json(json_first_key("roughness"@, b + seq![c] + rest)).roughness == Some(b),
        spec_parse_json(json_first_key("ior"@, b + seq![c] + rest)).ior == Some(b),
        spec_parse_json(json_first_key("transmission"@, b + seq![c] + rest)).transmission == Some(
            b,
        ),
{
    lemma_json_number_first_key("metallic"@, b, c, rest);
    lemma_json_number_first_key("roughness"@, b, c, rest);
    lemma_json_number_first_key("ior"@, b, c, rest);
    lemma_json_number_first_key("transmission"@, b, c, rest);
}

/// Plain JSON import reads the name from the `"name"` key: a JSON object
/// whose first key is `"name"`, with the quoted text `n` (holding no quote)
/// under it, imports the name `n`.
pub proof fn lemma_json_name(n: Seq<char>, rest: Seq<char>)
    requires
        forall|i: int| 0 <= i < n.len() ==> #[trigger] n[i] != '"',
    ensures
        spec_parse_json(json_first_key("name"@, seq!['"'] + n + seq!['"'] + rest)).name == n,
{
    reveal_strlit("name");
    let v = seq!['"'] + n + seq!['"'] + rest;
    lemma_json_first_key_after("name"@, v);
    assert(seq!['n', 'a', 'm', 'e'] =~= "name"@);
    let after = seq![' '] + v;
    assert(after[1] == '"');
    assert(leading_ws_end(after, 1) == 1);
    assert(leading_ws_end(after, 0) == 1);
    let t = trim_start(after);
    assert(t =~= v);
    let e: int = n.len() as int + 1;
    assert(occurs_at(t, seq!['"'], e)) by {
        assert(t.subrange(e, e + 1) =~= seq!['"']);
    }
    assert forall|j: int| 1 <= j < e implies !occurs_at(t, seq!['"'], j) by {
        if occurs_at(t, seq!['"'], j) {
            assert(t.subrange(j, j + 1)[0] == '"');
            assert(t[j] == n[j - 1]);
        }
    }
    lemma_find_from(t, seq!['"'], 1);
    assert(t.subrange(1, e) =~= n);
}

/// Plain JSON import sets no roughness where the text has no
/// `"roughness":` key, whatever other keys it holds.
pub proof fn lemma_json_roughness_absent(x: Seq<char>)
    requires
        forall|j: int| 0 <= j ==> !occurs_at(x, "\"roughness\":"@, j),
    ensures
        spec_parse_json(x).roughness is None,
{
    reveal_strlit("\"roughness\":");
    reveal_strlit("roughness");
    let pat = seq!['"'] + "roughness"@ + seq!['"', ':'];
    assert(pat =~= "\"roughness\":"@);
    lemma_find_from(x, pat, 0);
}

fn default_name() -> (r: String)
    ensures
        r@ == default_material_name(),
{
    let v: Vec<char> = vec!['i', 'm', 'p', 'o', 'r', 't', 'e', 'd'];
    assert(v@ =~= default_material_name());
    string_from_range(&v, 0, v.len())
}

fn name_or_default(o: Option<String>) -> (r: String)
    ensures
        r@ == or_default(opt_view(o), default_material_name()),
{
    match o {
        Some(s) => s,
        None => default_name(),
    }
}

/// Read a MaterialX document.
pub fn parse_materialx(xml: &str) -> (r: ImportedMaterial)
    ensures
        r@ == spec_parse_materialx(xml@),
{
    let name_attr: Vec<char> = vec!['n', 'a', 'm', 'e'];
    assert(name_attr@ =~= seq!['n', 'a', 'm', 'e']);
    let nm = string_from_range(&name_attr, 0, 4);
    assert(nm@ =~= seq!['n', 'a', 'm', 'e']);
    let name = name_or_default(extract_xml_attribute(xml, nm.as_str()));
    let base_color = extract_xml_input(xml, "base_color");
    let metallic = extract_xml_input(xml, "metalness");
    let roughness = extract_xml_input(xml, "specular_roughness");
    let ior = extract_xml_input(xml, "specular_IOR");
    let transmission = extract_xml_input(xml, "transmission");
    assert(name@ == spec_parse_materialx(xml@).name);
    assert(opt_view(base_color) == spec_parse_materialx(xml@).base_color);
    ImportedMaterial { name, base_color, metallic, roughness, ior, transmission }
}

/// Read a glTF PBR material.
pub fn parse_gltf(json: &str) -> (r: ImportedMaterial)
    ensures
        r@ == spec_parse_gltf(json@),
{
    let name_key: Vec<char> = vec!['n', 'a', 'm', 'e'];
    assert(name_key@ =~= seq!['n', 'a', 'm', 'e']);
    let nm = string_from_range(&name_key, 0, 4);
    assert(nm@ =~= seq!['n', 'a', 'm', 'e']);
    let name = name_or_default(extract_json_string(json, nm.as_str()));
    let pbr = extract_json_object(json, "pbrMetallicRoughness");
    let (base_color, metallic, roughness) = match &pbr {
        Some(p) => (
            extract_json_array(p.as_str(), "baseColorFactor"),
            extract_json_number_text(p.as_str(), "metallicFactor"),
            extract_json_number_text(p.as_str(), "roughnessFactor"),
        ),
        None => (None, None, None),
    };
    let ior_chars: Vec<char> = vec!['1', '.', '5'];
    assert(ior_chars@ =~= seq!['1', '.', '5']);
    let ior = string_from_range(&ior_chars, 0, 3);
    assert(ior@ =~= seq!['1', '.', '5']);
    let r = ImportedMaterial { name, base_color, metallic, roughness, ior: Some(ior), transmission: None };
    assert(r@.name == spec_parse_gltf(json@).name);
    assert(r@.base_color == spec_parse_gltf(json@).base_color);
    assert(r@.metallic == spec_parse_gltf(json@).metallic);
    assert(r@.ior == spec_parse_gltf(json@).ior);
    r
}

/// Read a plain JSON parameter object.
pub fn parse_json(json: &str) -> (r: ImportedMaterial)
    ensures
        r@ == spec_parse_json(json@),
{
    let name_key: Vec<char> = vec!['n', 'a', 'm', 'e'];
    assert(name_key@ =~= seq!['n', 'a', 'm', 'e']);
    let nm = string_from_range(&name_key, 0, 4);
    assert(nm@ =~= seq!['n', 'a', 'm', 'e']);
    ImportedMaterial {
        name: name_or_default(extract_json_string(json, nm.as_str())),
        base_color: extract_json_array(json, "baseColor"),
        metallic: extract_json_number_text(json, "metallic"),
        roughness: extract_json_number_text(json, "roughness"),
        ior: extract_json_number_text(json, "ior"),
        transmission: extract_json_number_text(json, "transmission"),
    }
}

// ----------------------------------------------------------------------------
// Importer
// ----------------------------------------------------------------------------

/// What `String::from_utf8_lossy` gives for `bytes`: the decoded text, with
/// each invalid sequence replaced by U+FFFD.
pub uninterp spec fn utf8_lossy(bytes: Seq<u8>) -> Seq<char>;

/// Decodes bytes with `String::from_utf8_lossy`; the contract states that
/// valid UTF-8 decodes to its characters, as the documentation says, and
/// names the result otherwise.
#[verifier::external_body]
pub(crate) fn decode_lossy(bytes: &[u8]) -> (r: String)
    ensures
        r@ == utf8_lossy(bytes@),
        valid_utf8(bytes@) ==> r@ == decode_utf8(bytes@),
{
    String::from_utf8_lossy(bytes).into_owned()
}

/// The format name that `detect_format` reports for the text `t`.
pub open spec fn spec_detect_format_text(text: Seq<char>) -> Option<Seq<char>> {
    let t = trim(text);
    if starts_with(t, "<?xml"@) || starts_with(t, "<materialx"@) {
        Some("materialx"@)
    } else if starts_with(t, seq!['{']) && contains_seq(t, "\"pbrMetallicRoughness\""@) {
        Some("gltf"@)
    } else if starts_with(t, seq!['{']) {
        Some("json"@)
    } else {
        None
    }
}

/// The index of the first of `names` that is `name`.
pub open spec fn first_named(names: Seq<Seq<char>>, name: Seq<char>) -> Option<int>
    decreases names.len(),
{
    if names.len() == 0 {
        None
    } else {
        match first_named(names.drop_last(), name) {
            Some(i) => Some(i),
            None => if names.last() == name {
                Some(names.len() - 1)
            } else {
                None
            },
        }
    }
}

/// `first_named` finds the first occurrence: `Some(i)` exactly when entry
/// `i` is the name and none before it is; `None` exactly when no entry is.
pub proof fn lemma_first_named(names: Seq<Seq<char>>, name: Seq<char>)
    ensures
        first_named(names, name) matches Some(i) ==> 0 <= i < names.len() && names[i] == name
            && forall|j: int| 0 <= j < i ==> #[trigger] names[j] != name,
        first_named(names, name) is None ==> forall|j: int|
            0 <= j < names.len() ==> #[trigger] names[j] != name,
    decreases names.len(),
{
    if names.len() > 0 {
        let init = names.drop_last();
        lemma_first_named(init, name);
        assert forall|j: int| 0 <= j < init.len() implies init[j] == names[j] by {}
    }
}

/// A match found at `i` after none among the first `i` is the first match.
proof fn lemma_first_named_extends(names: Seq<Seq<char>>, name: Seq<char>, i: int)
    requires
        0 <= i < names.len(),
        first_named(names.subrange(0, i), name) is None,
        names[i] == name,
    ensures
        first_named(names, name) == Some(i),
    decreases names.len(),
{
    if i < names.len() - 1 {
        let init = names.drop_last();
        assert(init.subrange(0, i) =~= names.subrange(0, i));
        lemma_first_named_extends(init, name, i);
    } else {
        assert(names.drop_last() =~= names.subrange(0, i));
    }
}

/// Registering an adapter does not change which adapter a name already
/// reaches: the earliest registration of a name wins. A name that no
/// earlier adapter has reaches the new one exactly when it has that name.
pub proof fn lemma_first_registration_wins(
    before: Seq<Seq<char>>,
    after: Seq<Seq<char>>,
    name: Seq<char>,
)
    requires
        after.len() == before.len() + 1,
        after.drop_last() == before,
    ensures
        first_named(before, name) is Some ==> first_named(after, name) == first_named(before, name),
        first_named(before, name) is None ==> first_named(after, name) == (if after.last() == name {
            Some(before.len() as int)
        } else {
            None
        }),
{
}

/// A registered custom adapter, boxed (`A` is `dyn ImportAdapter`).
struct RegisteredAdapter<A: ?Sized> {
    adapter: Box<A>,
}

/// Main importer for material conversion.
pub struct MaterialImporter {
    /// Custom adapters, in registration order.
    adapters: Vec<RegisteredAdapter<dyn ImportAdapter>>,
}

impl MaterialImporter {
    /// The names the registered adapters answer to, in registration order.
    pub closed spec fn adapter_names(&self) -> Seq<Seq<char>> {
        Seq::new(self.adapters@.len(), |i: int| self.adapters@[i].adapter.spec_name())
    }

    /// What registered adapter `i` makes of `data`.
    pub closed spec fn adapter_result(&self, i: int, data: Seq<u8>) -> Result<
        MaterialText,
        ImportErrorText,
    > {
        self.adapters@[i].adapter.spec_import(data)
    }

    /// Create new importer.
    pub fn new() -> (r: Self)
        ensures
            r.adapter_names() == Seq::<Seq<char>>::empty(),
    {
        let r = MaterialImporter { adapters: Vec::new() };
        assert(r.adapter_names() =~= Seq::<Seq<char>>::empty());
        r
    }

    /// Register custom adapter, after those already registered.
    pub fn register_adapter(&mut self, adapter: Box<dyn ImportAdapter>)
        ensures
            final(self).adapter_names().len() == old(self).adapter_names().len() + 1,
            final(self).adapter_names().drop_last() == old(self).adapter_names(),
            final(self).adapter_names().last() == adapter.spec_name(),
            forall|j: int, d: Seq<u8>|
                0 <= j < old(self).adapter_names().len() ==> #[trigger] final(self).adapter_result(
                    j,
                    d,
                ) == old(self).adapter_result(j, d),
            forall|d: Seq<u8>|
                #[trigger] final(self).adapter_result(old(self).adapter_names().len() as int, d)
                    == adapter.spec_import(d),
    {
        let ghost a = adapter;
        let entry = RegisteredAdapter { adapter };
        assert(entry.adapter == a);
        self.adapters.push(entry);
        assert(self.adapters@ == old(self).adapters@.push(entry));
        assert(self.adapter_names() =~= old(self).adapter_names().push(a.spec_name()));
        assert(self.adapter_names().drop_last() =~= old(self).adapter_names());
    }

    /// Index of the first registered adapter whose name is `name`: each
    /// adapter is asked for its name in turn, and the search stops at the
    /// first match.
    pub fn find_adapter(&self, name: &str) -> (r: Option<usize>)
        ensures
            r matches Some(i) ==> i < self.adapter_names().len(),
            r == match first_named(self.adapter_names(), name@) {
                Some(i) => Some(i as usize),
                None => None::<usize>,
            },
    {
        let wanted = chars_vec(name);
        let mut i: usize = 0;
        let ghost names = self.adapter_names();
        while i < self.adapters.len()
            invariant
                i <= self.adapters@.len(),
                names == self.adapter_names(),
                names.len() == self.adapters@.len(),
                wanted@ == name@,
                first_named(names.subrange(0, i as int), name@) is None,
            decreases self.adapters@.len() - i,
        {
            let candidate = chars_vec(self.adapters[i].adapter.name());
            let hit = chars_eq(&candidate, &wanted);
            proof {
                let pre = names.subrange(0, i + 1);
                assert(pre.drop_last() =~= names.subrange(0, i as int));
                assert(pre.last() == names[i as int]);
            }
            if hit {
                proof {
                    lemma_first_named_extends(names, name@, i as int);
                }
                return Some(i);
            }
            i = i + 1;
        }
        proof {
            assert(names.subrange(0, names.len() as int) =~= names);
        }
        None
    }

    /// Import material from source.
    pub fn import(&self, source: ImportSource) -> (r: Result<ImportedMaterial, ImportError>)
        ensures
            match source {
                ImportSource::MaterialXString(x) => r matches Ok(m) && m@ == spec_parse_materialx(x@),
                ImportSource::GltfString(x) => r matches Ok(m) && m@ == spec_parse_gltf(x@),
                ImportSource::JsonString(x) => r matches Ok(m) && m@ == spec_parse_json(x@),
                ImportSource::MaterialXFile(p) => r matches Err(ImportError::FileNotFound(q)) && q@
                    == p@,
                ImportSource::GltfFile(p) => r matches Err(ImportError::FileNotFound(q)) && q@
                    == p@,
                ImportSource::Custom { adapter_name, data } => match first_named(
                    self.adapter_names(),
                    adapter_name@,
                ) {
                    Some(i) => import_view(r) == self.adapter_result(i, data@),
                    None => r matches Err(ImportError::UnsupportedFormat(q)) && q@
                        == adapter_name@,
                },
            },
    {
        match source {
            ImportSource::MaterialXString(xml) => Ok(parse_materialx(xml.as_str())),
            ImportSource::MaterialXFile(path) => Err(ImportError::FileNotFound(path)),
            ImportSource::GltfString(json) => Ok(parse_gltf(json.as_str())),
            ImportSource::GltfFile(path) => Err(ImportError::FileNotFound(path)),
            ImportSource::JsonString(json) => Ok(parse_json(json.as_str())),
            ImportSource::Custom { adapter_name, data } => {
                proof {
                    lemma_first_named(self.adapter_names(), adapter_name@);
                    assert(self.adapter_names().len() == self.adapters@.len());
                }
                match self.find_adapter(adapter_name.as_str()) {
                    Some(i) => {
                        let r = self.adapters[i].adapter.import(data.as_slice());
                        proof {
                            let found = first_named(self.adapter_names(), adapter_name@);
                            assert(self.adapters.len() == self.adapters@.len());
                            assert(found->0 == i as int);
                        }
                        r
                    },
                    None => Err(ImportError::UnsupportedFormat(adapter_name)),
                }
            },
        }
    }

    /// Detect format from data, decoded as `String::from_utf8_lossy`
    /// decodes it: see `detect_format_text`.
    pub fn detect_format(data: &[u8]) -> (r: Option<String>)
        ensures
            opt_view(r) == spec_detect_format_text(utf8_lossy(data@)),
            valid_utf8(data@) ==> opt_view(r) == spec_detect_format_text(decode_utf8(data@)),
    {
        let text = decode_lossy(data);
        detect_format_text(text.as_str())
    }
}

/// Detect format from text: `"materialx"` for text that starts with
/// `<?xml` or `<materialx`, `"gltf"` for a JSON object that mentions
/// `"pbrMetallicRoughness"`, `"json"` for any other JSON object; leading and
/// trailing whitespace is ignored.
pub fn detect_format_text(text: &str) -> (r: Option<String>)
    ensures
        opt_view(r) == spec_detect_format_text(text@),
{
    let all = chars_vec(text);
    let t = trim_chars(&all);
    let xml_decl = chars_vec("<?xml");
    let mtlx = chars_vec("<materialx");
    let brace = chars_vec("{");
    let pbr = chars_vec("\"pbrMetallicRoughness\"");
    proof {
        reveal_strlit("{");
        assert(brace@ =~= seq!['{']);
    }
    if starts_with_exec(&t, &xml_decl) || starts_with_exec(&t, &mtlx) {
        Some("materialx".to_owned())
    } else if starts_with_exec(&t, &brace) && find_from_exec(&t, &pbr, 0).is_some() {
        Some("gltf".to_owned())
    } else if starts_with_exec(&t, &brace) {
        Some("json".to_owned())
    } else {
        None
    }
}

impl Default for MaterialImporter {
    fn default() -> (r: Self)
        ensures
            r.adapter_names() == Seq::<Seq<char>>::empty(),
    {
        MaterialImporter::new()
    }
}

/// Estimate memory usage for import module: parser buffers and adapter list.
pub fn total_import_memory() -> (r: usize)
    ensures
        r == 4096 + 1024,
{
    4096 + 1024
}

impl ImportError {
    /// Human-readable message of the error.
    pub fn to_display_string(&self) -> (r: String)
        ensures
            r@ == match self {
                ImportError::FileNotFound(p) => "File not found: "@ + p@,
                ImportError::UnsupportedFormat(f) => "Unsupported format: "@ + f@,
                ImportError::ParseError(m) => "Parse error: "@ + m@,
                ImportError::MissingProperty(p) => "Missing property: "@ + p@,
                ImportError::InvalidValue { property, value, expected } => "Invalid value for '"@
                    + property@ + "': '"@ + value@ + "', expected "@ + expected@,
                ImportError::IoError(m) => "IO error: "@ + m@,
            },
    {
        match self {
            ImportError::FileNotFound(p) => {
                let mut s = "File not found: ".to_owned();
                s.append(p.as_str());
                s
            },
            ImportError::UnsupportedFormat(f) => {
                let mut s = "Unsupported format: ".to_owned();
                s.append(f.as_str());
                s
            },
            ImportError::ParseError(m) => {
                let mut s = "Parse error: ".to_owned();
                s.append(m.as_str());
                s
            },
            ImportError::MissingProperty(p) => {
                let mut s = "Missing property: ".to_owned();
                s.append(p.as_str());
                s
            },
            ImportError::InvalidValue { property, value, expected } => {
                let mut s = "Invalid value for '".to_owned();
                s.append(property.as_str());
                s.append("': '");
                s.append(value.as_str());
                s.append("', expected ");
                s.append(expected.as_str());
                s
            },
            ImportError::IoError(m) => {
                let mut s = "IO error: ".to_owned();
                s.append(m.as_str());
                s
            },
        }
    }
}

} // verus!
