//! The recipe manifest: its field set, its line-oriented text format, and a
//! parser proved against a direct specification of that format.
//!
//! A manifest is a sequence of lines.  Blank lines are skipped; every other
//! line is one `key=value` binding, split at the first `=`.  Recognised keys
//! are `name`, `version`, `image`, `process_started_indicator`,
//! `process_ended_indicator`, `process_stop_cmd`, `min_ports` and
//! `config_path`; an unrecognised key is a parse error, and a repeated key
//! overwrites the earlier binding.  `name`, `version`, `image`,
//! `process_started_indicator` and `min_ports` must be present.  The
//! `image` value is either `local` (build
//! from the recipe's own directory) or `registry:<reference>` with a
//! non-empty reference.  `min_ports` is a non-negative decimal integer.

use vstd::prelude::*;

use crate::errors::RecipeError;
use crate::paths::str_eq;

verus! {

/// Where a recipe's image comes from: pulled from a registry by reference,
/// or built locally from the recipe's workspace directory.
#[derive(Debug)]
pub enum ImageType {
    /// The public registry image reference.
    Registry(String),
    /// Build from the recipe's own directory, under the recipe's name.
    Local,
}

/// Mathematical counterpart of [`ImageType`].
pub enum ImageTypeV {
    Registry(Seq<char>),
    Local,
}

impl View for ImageType {
    type V = ImageTypeV;

    open spec fn view(&self) -> ImageTypeV {
        match self {
            ImageType::Registry(r) => ImageTypeV::Registry(r@),
            ImageType::Local => ImageTypeV::Local,
        }
    }
}

/// A parsed recipe manifest.
#[derive(Debug)]
pub struct Recipe {
    /// Name of the recipe; the key linking workspace directory, image label
    /// and API addressing.
    pub name: String,
    /// Version identifier, carried through for stale-instance detection.
    pub version: String,
    /// Whether the image is pulled or built locally.
    pub image: ImageType,
    /// Output that marks the workload process as fully started.
    pub process_started_indicator: String,
    /// Output that marks the workload process as fully stopped.
    pub process_ended_indicator: Option<String>,
    /// Command sent on a stop request.
    pub process_stop_cmd: Option<String>,
    /// Minimum number of ports the workload needs.
    pub min_ports: usize,
    /// Where inside the container a config file must be placed.
    pub config_path: Option<String>,
}

/// Mathematical counterpart of [`Recipe`].
pub struct RecipeV {
    pub name: Seq<char>,
    pub version: Seq<char>,
    pub image: ImageTypeV,
    pub process_started_indicator: Seq<char>,
    pub process_ended_indicator: Option<Seq<char>>,
    pub process_stop_cmd: Option<Seq<char>>,
    pub min_ports: int,
    pub config_path: Option<Seq<char>>,
}

impl View for Recipe {
    type V = RecipeV;

    open spec fn view(&self) -> RecipeV {
        RecipeV {
            name: self.name@,
            version: self.version@,
            image: self.image@,
            process_started_indicator: self.process_started_indicator@,
            process_ended_indicator: self.process_ended_indicator.deep_view(),
            process_stop_cmd: self.process_stop_cmd.deep_view(),
            min_ports: self.min_ports as int,
            config_path: self.config_path.deep_view(),
        }
    }
}

// ---------------------------------------------------------------------------
// Splitting text into lines and lines into bindings.
// ---------------------------------------------------------------------------

/// The lines of `s`: maximal runs between `\n` characters.  Always
/// non-empty; a trailing newline yields a final empty line.
pub open spec fn lines_of(s: Seq<char>) -> Seq<Seq<char>>
    decreases s.len(),
{
    if s.len() == 0 {
        seq![Seq::<char>::empty()]
    } else if s[0] == '\n' {
        seq![Seq::<char>::empty()] + lines_of(s.drop_first())
    } else {
        let rest = lines_of(s.drop_first());
        seq![seq![s[0]] + rest[0]] + rest.drop_first()
    }
}

/// `s` split at the first occurrence of `sep`, if any.
pub open spec fn split_once(s: Seq<char>, sep: char) -> Option<(Seq<char>, Seq<char>)>
    decreases s.len(),
{
    if s.len() == 0 {
        None
    } else if s[0] == sep {
        Some((Seq::<char>::empty(), s.drop_first()))
    } else {
        match split_once(s.drop_first(), sep) {
            None => None,
            Some(kv) => Some((seq![s[0]] + kv.0, kv.1)),
        }
    }
}

proof fn lemma_split_once_found(s: Seq<char>, sep: char, k: int)
    requires
        0 <= k < s.len(),
        s[k] == sep,
        forall|j: int| 0 <= j < k ==> s[j] != sep,
    ensures
        split_once(s, sep) == Some((s.subrange(0, k), s.subrange(k + 1, s.len() as int))),
    decreases k,
{
    if k == 0 {
        assert(s.drop_first() =~= s.subrange(1, s.len() as int));
        assert(Seq::<char>::empty() =~= s.subrange(0, 0));
    } else {
        let t = s.drop_first();
        assert(forall|j: int| 0 <= j < k - 1 ==> t[j] != sep);
        lemma_split_once_found(t, sep, k - 1);
        assert(t.subrange(0, k - 1) =~= s.subrange(1, k));
        assert(t.subrange(k, t.len() as int) =~= s.subrange(k + 1, s.len() as int));
        assert(seq![s[0]] + s.subrange(1, k) =~= s.subrange(0, k));
    }
}

proof fn lemma_split_once_none(s: Seq<char>, sep: char)
    requires
        forall|j: int| 0 <= j < s.len() ==> s[j] != sep,
    ensures
        split_once(s, sep) == None::<(Seq<char>, Seq<char>)>,
    decreases s.len(),
{
    if s.len() > 0 {
        lemma_split_once_none(s.drop_first(), sep);
    }
}

/// Splits a line at its first `=`, handing back key and value slices.
fn find_binding(line: &str) -> (r: Option<(String, String)>)
    ensures
        r is Some <==> split_once(line@, '=') is Some,
        r matches Some(kv) ==> split_once(line@, '=') == Some((kv.0@, kv.1@)),
{
    let n = line.unicode_len();
    let mut i: usize = 0;
    while i < n
        invariant
            n == line@.len(),
            i <= n,
            forall|j: int| 0 <= j < i ==> line@[j] != '=',
        decreases n - i,
    {
        if line.get_char(i) == '=' {
            proof {
                lemma_split_once_found(line@, '=', i as int);
            }
            let key = String::from_str(line.substring_char(0, i));
            let value = String::from_str(line.substring_char(i + 1, n));
            return Some((key, value));
        }
        i += 1;
    }
    proof {
        lemma_split_once_none(line@, '=');
    }
    None
}

// ---------------------------------------------------------------------------
// Field values.
// ---------------------------------------------------------------------------

/// A decimal digit.
pub open spec fn is_digit(c: char) -> bool {
    48 <= c as u32 <= 57
}

/// The numeric value of one decimal digit.
pub open spec fn digit_value(c: char) -> int {
    c as u32 - 48
}

/// The value of a digit string read in base ten.
pub open spec fn digits_value(s: Seq<char>) -> int
    decreases s.len(),
{
    if s.len() == 0 {
        0
    } else {
        digits_value(s.drop_last()) * 10 + digit_value(s.last())
    }
}

/// A well-formed ports count: at least one character, all digits.
pub open spec fn all_digits(s: Seq<char>) -> bool {
    s.len() > 0 && forall|i: int| 0 <= i < s.len() ==> is_digit(s[i])
}

/// What the `min_ports` value parses to, when it is a digit string whose
/// value fits the machine's word.
pub open spec fn parse_ports_value(s: Seq<char>) -> Option<int> {
    if all_digits(s) && digits_value(s) <= usize::MAX {
        Some(digits_value(s))
    } else {
        None
    }
}

proof fn lemma_digits_nonneg(s: Seq<char>)
    requires
        forall|i: int| 0 <= i < s.len() ==> is_digit(s[i]),
    ensures
        digits_value(s) >= 0,
    decreases s.len(),
{
    if s.len() > 0 {
        lemma_digits_nonneg(s.drop_last());
    }
}

proof fn lemma_digits_prefix(s: Seq<char>, i: int)
    requires
        forall|j: int| 0 <= j < s.len() ==> is_digit(s[j]),
        0 <= i <= s.len(),
    ensures
        digits_value(s.subrange(0, i)) <= digits_value(s),
    decreases s.len(),
{
    if i == s.len() {
        assert(s.subrange(0, i) =~= s);
    } else {
        let t = s.drop_last();
        lemma_digits_prefix(t, i);
        assert(t.subrange(0, i) =~= s.subrange(0, i));
        lemma_digits_nonneg(t);
        assert(digits_value(t) * 10 >= digits_value(t));
        assert(digits_value(s) >= digits_value(t));
    }
}

/// Parses a `min_ports` value, exactly as `parse_ports_value` describes it.
fn parse_ports(s: &str) -> (r: Option<usize>)
    ensures
        r is Some <==> parse_ports_value(s@) is Some,
        r matches Some(v) ==> parse_ports_value(s@) == Some(v as int),
{
    let n = s.unicode_len();
    if n == 0 {
        return None;
    }
    let mut v: usize = 0;
    let mut i: usize = 0;
    while i < n
        invariant
            n == s@.len(),
            i <= n,
            forall|j: int| 0 <= j < i ==> is_digit(s@[j]),
            v as int == digits_value(s@.subrange(0, i as int)),
        decreases n - i,
    {
        let c = s.get_char(i);
        let u = c as u32;
        if u < 48 || u > 57 {
            assert(!is_digit(s@[i as int]));
            return None;
        }
        let d = (u - 48) as usize;
        let scaled = match v.checked_mul(10) {
            Some(w) => w,
            None => {
                proof {
                    let p = s@.subrange(0, i as int + 1);
                    assert(p.drop_last() =~= s@.subrange(0, i as int));
                    assert(digits_value(p) > usize::MAX);
                    lemma_digits_nonneg(p.drop_last());
                    if all_digits(s@) {
                        lemma_digits_prefix(s@, i as int + 1);
                    }
                }
                return None;
            },
        };
        let bumped = match scaled.checked_add(d) {
            Some(w) => w,
            None => {
                proof {
                    let p = s@.subrange(0, i as int + 1);
                    assert(p.drop_last() =~= s@.subrange(0, i as int));
                    assert(digits_value(p) > usize::MAX);
                    if all_digits(s@) {
                        lemma_digits_prefix(s@, i as int + 1);
                    }
                }
                return None;
            },
        };
        proof {
            let p = s@.subrange(0, i as int + 1);
            assert(p.drop_last() =~= s@.subrange(0, i as int));
        }
        v = bumped;
        i += 1;
    }
    proof {
        assert(s@.subrange(0, n as int) =~= s@);
    }
    Some(v)
}

/// What an `image` value parses to: `local`, or `registry:` followed by a
/// non-empty reference.
pub open spec fn parse_image_value(v: Seq<char>) -> Option<ImageTypeV> {
    if v == "local"@ {
        Some(ImageTypeV::Local)
    } else if v.len() > "registry:"@.len() && v.subrange(0, "registry:"@.len() as int)
        == "registry:"@ {
        Some(ImageTypeV::Registry(v.subrange("registry:"@.len() as int, v.len() as int)))
    } else {
        None
    }
}

/// Parses an `image` value, exactly as `parse_image_value` describes it.
fn parse_image(v: &str) -> (r: Option<ImageType>)
    ensures
        r is Some <==> parse_image_value(v@) is Some,
        r matches Some(img) ==> parse_image_value(v@) == Some(img@),
{
    if str_eq(v, "local") {
        return Some(ImageType::Local);
    }
    let prefix = "registry:";
    let plen = prefix.unicode_len();
    let n = v.unicode_len();
    if n > plen {
        let head = v.substring_char(0, plen);
        if str_eq(head, prefix) {
            let reference = String::from_str(v.substring_char(plen, n));
            return Some(ImageType::Registry(reference));
        }
    }
    None
}

// ---------------------------------------------------------------------------
// Folding bindings into a manifest.
// ---------------------------------------------------------------------------

/// The fields collected so far while reading a manifest.
pub struct PartialV {
    pub name: Option<Seq<char>>,
    pub version: Option<Seq<char>>,
    pub image: Option<ImageTypeV>,
    pub process_started_indicator: Option<Seq<char>>,
    pub process_ended_indicator: Option<Seq<char>>,
    pub process_stop_cmd: Option<Seq<char>>,
    pub min_ports: Option<int>,
    pub config_path: Option<Seq<char>>,
}

/// The state before any line has been read.
pub open spec fn empty_partial() -> PartialV {
    PartialV {
        name: None,
        version: None,
        image: None,
        process_started_indicator: None,
        process_ended_indicator: None,
        process_stop_cmd: None,
        min_ports: None,
        config_path: None,
    }
}

/// One `key=value` binding applied to the state: recognised keys overwrite
/// their field, a malformed value or an unrecognised key fails.  An empty
/// `name` fails, since the name keys every association in the pipeline.
pub open spec fn apply_binding(p: PartialV, key: Seq<char>, value: Seq<char>) -> Option<PartialV> {
    if key == "name"@ {
        if value.len() == 0 {
            None
        } else {
            Some(PartialV { name: Some(value), ..p })
        }
    } else if key == "version"@ {
        Some(PartialV { version: Some(value), ..p })
    } else if key == "image"@ {
        match parse_image_value(value) {
            None => None,
            Some(img) => Some(PartialV { image: Some(img), ..p }),
        }
    } else if key == "process_started_indicator"@ {
        Some(PartialV { process_started_indicator: Some(value), ..p })
    } else if key == "process_ended_indicator"@ {
        Some(PartialV { process_ended_indicator: Some(value), ..p })
    } else if key == "process_stop_cmd"@ {
        Some(PartialV { process_stop_cmd: Some(value), ..p })
    } else if key == "min_ports"@ {
        match parse_ports_value(value) {
            None => None,
            Some(v) => Some(PartialV { min_ports: Some(v), ..p }),
        }
    } else if key == "config_path"@ {
        Some(PartialV { config_path: Some(value), ..p })
    } else {
        None
    }
}

/// One manifest line applied to the state: blank lines change nothing,
/// anything else must be a binding.
pub open spec fn apply_line(p: PartialV, line: Seq<char>) -> Option<PartialV> {
    if line.len() == 0 {
        Some(p)
    } else {
        match split_once(line, '=') {
            None => None,
            Some(kv) => apply_binding(p, kv.0, kv.1),
        }
    }
}

/// All lines applied in order, failing as soon as one line fails.
pub open spec fn fold_lines(p: PartialV, ls: Seq<Seq<char>>) -> Option<PartialV>
    decreases ls.len(),
{
    if ls.len() == 0 {
        Some(p)
    } else {
        match apply_line(p, ls[0]) {
            None => None,
            Some(q) => fold_lines(q, ls.drop_first()),
        }
    }
}

/// The finished manifest, once `name`, `version`, `image`,
/// `process_started_indicator` and `min_ports` are all present.
pub open spec fn finish_partial(p: PartialV) -> Option<RecipeV> {
    match p.name {
        None => None,
        Some(name) => match p.version {
            None => None,
            Some(version) => match p.image {
                None => None,
                Some(image) => match p.min_ports {
                    None => None,
                    Some(min_ports) => match p.process_started_indicator {
                        None => None,
                        Some(process_started_indicator) => Some(
                            RecipeV {
                                name,
                                version,
                                image,
                                process_started_indicator,
                                process_ended_indicator: p.process_ended_indicator,
                                process_stop_cmd: p.process_stop_cmd,
                                min_ports,
                                config_path: p.config_path,
                            },
                        ),
                    },
                },
            },
        },
    }
}

/// What a manifest text means: its lines folded into a finished recipe.
pub open spec fn parse_manifest(text: Seq<char>) -> Option<RecipeV> {
    match fold_lines(empty_partial(), lines_of(text)) {
        None => None,
        Some(p) => finish_partial(p),
    }
}

// ---------------------------------------------------------------------------
// The executable parser.
// ---------------------------------------------------------------------------

struct PartialRecipe {
    name: Option<String>,
    version: Option<String>,
    image: Option<ImageType>,
    process_started_indicator: Option<String>,
    process_ended_indicator: Option<String>,
    process_stop_cmd: Option<String>,
    min_ports: Option<usize>,
    config_path: Option<String>,
}

impl View for PartialRecipe {
    type V = PartialV;

    closed spec fn view(&self) -> PartialV {
        PartialV {
            name: self.name.deep_view(),
            version: self.version.deep_view(),
            image: match self.image {
                Some(img) => Some(img@),
                None => None,
            },
            process_started_indicator: self.process_started_indicator.deep_view(),
            process_ended_indicator: self.process_ended_indicator.deep_view(),
            process_stop_cmd: self.process_stop_cmd.deep_view(),
            min_ports: match self.min_ports {
                Some(v) => Some(v as int),
                None => None,
            },
            config_path: self.config_path.deep_view(),
        }
    }
}

/// Splits a manifest text into its lines.
fn split_lines(text: &str) -> (r: Vec<String>)
    ensures
        r.deep_view() == lines_of(text@),
{
    let n = text.unicode_len();
    let mut done: Vec<String> = Vec::new();
    let mut start: usize = 0;
    let mut i: usize = 0;
    proof {
        lemma_lines_nonempty(text@.subrange(0, n as int));
        assert(text@.subrange(0, n as int) =~= text@);
        assert(done.deep_view() + prepend_head(
            text@.subrange(0, 0),
            lines_of(text@.subrange(0, n as int)),
        ) =~~= lines_of(text@));
    }
    while i < n
        invariant
            n == text@.len(),
            start <= i <= n,
            lines_of(text@) == done.deep_view() + prepend_head(
                text@.subrange(start as int, i as int),
                lines_of(text@.subrange(i as int, n as int)),
            ),
        decreases n - i,
    {
        let ghost prefix = text@.subrange(start as int, i as int);
        let ghost tail = text@.subrange(i as int, n as int);
        let ghost tail1 = text@.subrange(i as int + 1, n as int);
        proof {
            assert(tail.len() > 0 && tail[0] == text@[i as int]);
            assert(tail.drop_first() =~= tail1);
        }
        if text.get_char(i) == '\n' {
            let line = String::from_str(text.substring_char(start, i));
            done.push(line);
            proof {
                assert(lines_of(tail) =~= seq![Seq::<char>::empty()] + lines_of(tail1));
                assert(prepend_head(prefix, lines_of(tail)) =~~= seq![prefix] + lines_of(tail1));
                assert(done.deep_view() =~~= done.deep_view().subrange(
                    0,
                    done.deep_view().len() - 1,
                ).push(prefix));
                assert(done.deep_view() + prepend_head(
                    text@.subrange(i as int + 1, i as int + 1),
                    lines_of(tail1),
                ) =~~= lines_of(text@));
            }
            start = i + 1;
        } else {
            proof {
                let rest = lines_of(tail1);
                assert(lines_of(tail) =~= seq![seq![tail[0]] + rest[0]] + rest.drop_first());
                lemma_lines_nonempty(tail1);
                assert(prepend_head(prefix, lines_of(tail)) =~~= prepend_head(
                    text@.subrange(start as int, i as int + 1),
                    rest,
                ));
            }
        }
        i += 1;
    }
    let last = String::from_str(text.substring_char(start, n));
    done.push(last);
    proof {
        let ghost tail = text@.subrange(n as int, n as int);
        assert(tail.len() == 0);
        assert(lines_of(tail) =~= seq![Seq::<char>::empty()]);
        assert(prepend_head(text@.subrange(start as int, n as int), lines_of(tail)) =~~= seq![
            text@.subrange(start as int, n as int),
        ]);
        assert(done.deep_view() =~~= lines_of(text@));
    }
    done
}

/// A partial line glued onto the first line of what follows it.
spec fn prepend_head(p: Seq<char>, ls: Seq<Seq<char>>) -> Seq<Seq<char>> {
    seq![p + ls[0]] + ls.drop_first()
}

proof fn lemma_lines_nonempty(s: Seq<char>)
    ensures
        lines_of(s).len() > 0,
    decreases s.len(),
{
    if s.len() > 0 && s[0] != '\n' {
        lemma_lines_nonempty(s.drop_first());
    }
}

/// One line folded into the builder; `false` reports the line as malformed.
fn apply_line_exec(p: &mut PartialRecipe, line: &str) -> (ok: bool)
    ensures
        match apply_line(old(p)@, line@) {
            Some(q) => ok && final(p)@ == q,
            None => !ok,
        },
{
    let n = line.unicode_len();
    if n == 0 {
        return true;
    }
    let kv = match find_binding(line) {
        Some(kv) => kv,
        None => {
            return false;
        },
    };
    let key = kv.0;
    let value = kv.1;
    if str_eq(key.as_str(), "name") {
        if value.unicode_len() == 0 {
            return false;
        }
        p.name = Some(value);
        true
    } else if str_eq(key.as_str(), "version") {
        p.version = Some(value);
        true
    } else if str_eq(key.as_str(), "image") {
        match parse_image(value.as_str()) {
            Some(img) => {
                p.image = Some(img);
                true
            },
            None => false,
        }
    } else if str_eq(key.as_str(), "process_started_indicator") {
        p.process_started_indicator = Some(value);
        true
    } else if str_eq(key.as_str(), "process_ended_indicator") {
        p.process_ended_indicator = Some(value);
        true
    } else if str_eq(key.as_str(), "process_stop_cmd") {
        p.process_stop_cmd = Some(value);
        true
    } else if str_eq(key.as_str(), "min_ports") {
        match parse_ports(value.as_str()) {
            Some(v) => {
                p.min_ports = Some(v);
                true
            },
            None => false,
        }
    } else if str_eq(key.as_str(), "config_path") {
        p.config_path = Some(value);
        true
    } else {
        false
    }
}

impl Recipe {
    /// Parses a manifest's text, exactly as `parse_manifest` describes it.
    /// A missing or malformed manifest is reported as a parse error and
    /// never reaches the container engine.
    pub fn parse(text: &str) -> (r: Result<Recipe, RecipeError>)
        ensures
            r is Ok <==> parse_manifest(text@) is Some,
            r matches Ok(rec) ==> parse_manifest(text@) == Some(rec@),
            r matches Err(e) ==> e is ManifestParse,
    {
        let lines = split_lines(text);
        let mut p = PartialRecipe {
            name: None,
            version: None,
            image: None,
            process_started_indicator: None,
            process_ended_indicator: None,
            process_stop_cmd: None,
            min_ports: None,
            config_path: None,
        };
        let ghost all = lines.deep_view();
        let mut i: usize = 0;
        proof {
            assert(all.skip(0) =~= all);
            assert(p@ == empty_partial());
        }
        while i < lines.len()
            invariant
                all == lines.deep_view(),
                all == lines_of(text@),
                i <= lines.len(),
                lines.len() == all.len(),
                fold_lines(empty_partial(), all) == fold_lines(p@, all.skip(i as int)),
            decreases lines.len() - i,
        {
            let ghost rest = all.skip(i as int);
            proof {
                assert(rest.len() > 0 && rest[0] == all[i as int]);
                assert(rest.drop_first() =~= all.skip(i as int + 1));
            }
            let ok = apply_line_exec(&mut p, lines[i].as_str());
            if !ok {
                return Err(
                    RecipeError::ManifestParse(
                        String::from_str("manifest line is not a recognised key=value binding"),
                    ),
                );
            }
            i += 1;
        }
        proof {
            assert(all.skip(i as int) =~= Seq::<Seq<char>>::empty());
        }
        let name = match p.name {
            Some(v) => v,
            None => {
                return Err(
                    RecipeError::ManifestParse(String::from_str("manifest is missing: name")),
                );
            },
        };
        let version = match p.version {
            Some(v) => v,
            None => {
                return Err(
                    RecipeError::ManifestParse(String::from_str("manifest is missing: version")),
                );
            },
        };
        let image = match p.image {
            Some(v) => v,
            None => {
                return Err(
                    RecipeError::ManifestParse(String::from_str("manifest is missing: image")),
                );
            },
        };
        let min_ports = match p.min_ports {
            Some(v) => v,
            None => {
                return Err(
                    RecipeError::ManifestParse(String::from_str("manifest is missing: min_ports")),
                );
            },
        };
        let process_started_indicator = match p.process_started_indicator {
            Some(v) => v,
            None => {
                return Err(
                    RecipeError::ManifestParse(
                        String::from_str("manifest is missing: process_started_indicator"),
                    ),
                );
            },
        };
        Ok(
            Recipe {
                name,
                version,
                image,
                process_started_indicator,
                process_ended_indicator: p.process_ended_indicator,
                process_stop_cmd: p.process_stop_cmd,
                min_ports,
                config_path: p.config_path,
            },
        )
    }
}

} // verus!
