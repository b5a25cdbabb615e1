//! Model-catalog reporting: the catalog entries, the size formatter, and
//! the model-type heuristic. The directory scanning itself is I/O and
//! belongs to the caller; everything that decides or formats is here.

use vstd::prelude::*;
use vstd::arithmetic::div_mod::{lemma_div_is_ordered, lemma_div_is_ordered_by_denominator};
use vstd::string::StrSliceExecFns;
use vstd::string::StringExecFns;

use crate::text::{
    find_char, lemma_find_char, spec_contains_seq, spec_find_char, spec_starts_with, str_contains,
    str_starts_with,
};

verus! {

pub const KB: u64 = 1024;

pub const MB: u64 = 1048576;

pub const GB: u64 = 1073741824;

/// One catalog entry reported to the caller.
#[derive(Debug, Clone)]
pub struct ModelInfo {
    pub id: String,
    pub name: String,
    pub model_type: String,
    pub repo_id: String,
    pub downloaded: bool,
    pub size_estimate: Option<String>,
}

/// The whole catalog with its aggregate download state.
#[derive(Debug, Clone)]
pub struct ModelStatus {
    pub models: Vec<ModelInfo>,
    pub all_downloaded: bool,
}

/// Aggregates catalog entries: downloaded only when every entry is.
pub fn compose_model_status(models: Vec<ModelInfo>) -> (r: ModelStatus)
    ensures
        r.models@ == models@,
        r.all_downloaded == (forall|i: int| 0 <= i < models@.len() ==> models@[i].downloaded),
{
    let n = models.len();
    let mut i: usize = 0;
    loop
        invariant
            i <= n,
            n == models@.len(),
            forall|j: int| 0 <= j < i ==> models@[j].downloaded,
        ensures
            i <= n,
            forall|j: int| 0 <= j < i ==> models@[j].downloaded,
            i == n || !models@[i as int].downloaded,
        decreases n - i,
    {
        if i >= n {
            break ;
        }
        if !models[i].downloaded {
            break ;
        }
        i += 1;
    }
    let all = i == n;
    ModelStatus { models, all_downloaded: all }
}

pub open spec fn spec_digit_char(d: nat) -> char {
    if d == 0 {
        '0'
    } else if d == 1 {
        '1'
    } else if d == 2 {
        '2'
    } else if d == 3 {
        '3'
    } else if d == 4 {
        '4'
    } else if d == 5 {
        '5'
    } else if d == 6 {
        '6'
    } else if d == 7 {
        '7'
    } else if d == 8 {
        '8'
    } else {
        '9'
    }
}

/// The decimal digits of `n`, most significant first.
pub open spec fn spec_dec(n: nat) -> Seq<char>
    decreases n,
{
    if n < 10 {
        seq![spec_digit_char(n)]
    } else {
        spec_dec(n / 10).push(spec_digit_char(n % 10))
    }
}

fn digit_str(d: u64) -> (r: &'static str)
    requires
        d < 10,
    ensures
        r@ == seq![spec_digit_char(d as nat)],
{
    proof {
        reveal_strlit("0");
        reveal_strlit("1");
        reveal_strlit("2");
        reveal_strlit("3");
        reveal_strlit("4");
        reveal_strlit("5");
        reveal_strlit("6");
        reveal_strlit("7");
        reveal_strlit("8");
        reveal_strlit("9");
    }
    let r = if d == 0 {
        "0"
    } else if d == 1 {
        "1"
    } else if d == 2 {
        "2"
    } else if d == 3 {
        "3"
    } else if d == 4 {
        "4"
    } else if d == 5 {
        "5"
    } else if d == 6 {
        "6"
    } else if d == 7 {
        "7"
    } else if d == 8 {
        "8"
    } else {
        "9"
    };
    proof {
        assert(r@ =~= seq![spec_digit_char(d as nat)]);
    }
    r
}

/// Renders `n` in decimal.
pub fn u64_to_dec(n: u64) -> (r: String)
    ensures
        r@ == spec_dec(n as nat),
    decreases n,
{
    if n < 10 {
        String::from_str(digit_str(n))
    } else {
        let mut s = u64_to_dec(n / 10);
        s.append(digit_str(n % 10));
        proof {
            assert(s@ =~= spec_dec((n / 10) as nat).push(spec_digit_char((n % 10) as nat)));
        }
        s
    }
}

/// `bytes` scaled by `unit` in hundredths, rounded half away from zero.
pub open spec fn spec_scaled_hundredths(bytes: nat, unit: nat) -> nat
    recommends
        unit >= 1,
{
    ((bytes * 100 + unit / 2) / unit) as nat
}

fn scaled_hundredths(bytes: u64, unit: u64) -> (h: u64)
    requires
        1024 <= unit,
    ensures
        h as nat == spec_scaled_hundredths(bytes as nat, unit as nat),
{
    let wide: u128 = (bytes as u128) * 100 + ((unit / 2) as u128);
    let q: u128 = wide / (unit as u128);
    proof {
        lemma_div_is_ordered_by_denominator(wide as int, 1024, unit as int);
        lemma_div_is_ordered(wide as int, 0xffffffffffffffffu128 * 100 + 0x7fffffffffffffffint, 1024);
        assert((0xffffffffffffffffu128 * 100 + 0x7fffffffffffffffint) / 1024 <= 0xffffffffffffffffint);
    }
    q as u64
}

/// A hundredths count rendered with two decimal places.
pub open spec fn spec_decimal2(h: nat) -> Seq<char> {
    spec_dec(h / 100) + seq!['.', spec_digit_char((h / 10) % 10), spec_digit_char(h % 10)]
}

fn decimal2(h: u64) -> (r: String)
    ensures
        r@ == spec_decimal2(h as nat),
{
    let mut s = u64_to_dec(h / 100);
    s.append(".");
    s.append(digit_str((h / 10) % 10));
    s.append(digit_str(h % 10));
    proof {
        reveal_strlit(".");
        assert(s@ =~= spec_decimal2(h as nat));
    }
    s
}

/// A byte count rendered for humans: scaled to the largest binary unit it
/// reaches, with two decimal places, or as a plain count below one
/// kibibyte.
pub open spec fn spec_format_size(bytes: nat) -> Seq<char> {
    if bytes >= GB {
        spec_decimal2(spec_scaled_hundredths(bytes, GB as nat)) + " GB"@
    } else if bytes >= MB {
        spec_decimal2(spec_scaled_hundredths(bytes, MB as nat)) + " MB"@
    } else if bytes >= KB {
        spec_decimal2(spec_scaled_hundredths(bytes, KB as nat)) + " KB"@
    } else {
        spec_dec(bytes) + " B"@
    }
}

/// Formats a byte count for humans.
pub fn format_size(bytes: u64) -> (r: String)
    ensures
        r@ == spec_format_size(bytes as nat),
{
    if bytes >= GB {
        let mut s = decimal2(scaled_hundredths(bytes, GB));
        s.append(" GB");
        s
    } else if bytes >= MB {
        let mut s = decimal2(scaled_hundredths(bytes, MB));
        s.append(" MB");
        s
    } else if bytes >= KB {
        let mut s = decimal2(scaled_hundredths(bytes, KB));
        s.append(" KB");
        s
    } else {
        let mut s = u64_to_dec(bytes);
        s.append(" B");
        s
    }
}

/// The sum of `s`, unbounded.
pub open spec fn spec_sum(s: Seq<u64>) -> int
    decreases s.len(),
{
    if s.len() == 0 {
        0
    } else {
        spec_sum(s.drop_last()) + s.last()
    }
}

/// Sums file sizes gathered by a directory walk, saturating at the largest
/// representable count instead of overflowing.
pub fn total_size(sizes: &Vec<u64>) -> (r: u64)
    ensures
        spec_sum(sizes@) <= u64::MAX ==> r == spec_sum(sizes@),
        spec_sum(sizes@) > u64::MAX ==> r == u64::MAX,
{
    let n = sizes.len();
    let mut total: u64 = 0;
    let mut i: usize = 0;
    proof {
        assert(sizes@.take(0) =~= Seq::<u64>::empty());
    }
    while i < n
        invariant
            i <= n,
            n == sizes@.len(),
            spec_sum(sizes@.take(i as int)) <= u64::MAX ==> total == spec_sum(
                sizes@.take(i as int),
            ),
            spec_sum(sizes@.take(i as int)) > u64::MAX ==> total == u64::MAX,
            spec_sum(sizes@.take(i as int)) >= total,
        decreases n - i,
    {
        let x = sizes[i];
        proof {
            assert(sizes@.take(i + 1).drop_last() =~= sizes@.take(i as int));
            assert(sizes@.take(i + 1).last() == sizes@[i as int]);
        }
        if x > u64::MAX - total {
            total = u64::MAX;
        } else {
            total = total + x;
        }
        i += 1;
    }
    proof {
        assert(sizes@.take(n as int) =~= sizes@);
    }
    total
}

/// What lowercasing produces; the result depends on the characters alone.
pub uninterp spec fn lower_of(s: Seq<char>) -> Seq<char>;

/// Relies on str::to_lowercase: the lowercase mapping of the input,
/// a pure function of its characters.
#[verifier::external_body]
fn lowercase(s: &str) -> (r: String)
    ensures
        r@ == lower_of(s@),
{
    s.to_lowercase()
}

/// The model type a lowercased repository identifier indicates.
pub open spec fn spec_classify_lowered(lower: Seq<char>) -> Seq<char> {
    if spec_contains_seq(lower, "whisper"@) || spec_contains_seq(lower, "stt"@) {
        "stt"@
    } else if spec_contains_seq(lower, "tts"@) || spec_contains_seq(lower, "chatterbox"@) {
        "tts"@
    } else {
        "llm"@
    }
}

/// Classifies an already-lowercased repository identifier.
pub fn classify_lowered(lower: &str) -> (r: String)
    ensures
        r@ == spec_classify_lowered(lower@),
{
    if str_contains(lower, "whisper") || str_contains(lower, "stt") {
        String::from_str("stt")
    } else if str_contains(lower, "tts") || str_contains(lower, "chatterbox") {
        String::from_str("tts")
    } else {
        String::from_str("llm")
    }
}

/// Guesses the model type of a repository identifier, case-insensitively.
pub fn guess_model_type(repo_id: &str) -> (r: String)
    ensures
        r@ == spec_classify_lowered(lower_of(repo_id@)),
{
    let lower = lowercase(repo_id);
    classify_lowered(lower.as_str())
}

/// `s` with every slash replaced by a double hyphen.
pub open spec fn spec_replace_slash(s: Seq<char>) -> Seq<char>
    decreases s.len(),
    when s.len() >= 0
    via spec_replace_slash_decreases
{
    let i = spec_find_char(s, '/');
    if i == s.len() {
        s
    } else {
        s.take(i) + seq!['-', '-'] + spec_replace_slash(s.skip(i + 1))
    }
}

#[via_fn]
proof fn spec_replace_slash_decreases(s: Seq<char>) {
    lemma_find_char(s, '/');
}

fn replace_slash(s: &str) -> (r: String)
    ensures
        r@ == spec_replace_slash(s@),
    decreases s@.len(),
{
    let n = s.unicode_len();
    let i = find_char(s, '/');
    proof {
        lemma_find_char(s@, '/');
    }
    if i == n {
        String::from_str(s)
    } else {
        let head = s.substring_char(0, i);
        let tail = s.substring_char(i + 1, n);
        proof {
            assert(head@ =~= s@.take(i as int));
            assert(tail@ =~= s@.skip(i + 1));
            reveal_strlit("--");
        }
        let mut out = String::from_str(head);
        out.append("--");
        let rest = replace_slash(tail);
        let out = out.concat(rest.as_str());
        proof {
            assert("--"@ =~= seq!['-', '-']);
            assert(out@ =~= s@.take(i as int) + seq!['-', '-'] + spec_replace_slash(s@.skip(i + 1)));
        }
        out
    }
}

/// The cache directory a repository is stored under: the fixed prefix,
/// then the identifier with slashes flattened to double hyphens.
pub fn model_cache_dir_name(repo_id: &str) -> (r: String)
    ensures
        r@ == "models--"@ + spec_replace_slash(repo_id@),
{
    let mut out = String::from_str("models--");
    let rest = replace_slash(repo_id);
    out.append(rest.as_str());
    out
}

/// The repository identifier a cache directory name denotes: after the
/// fixed prefix, the organization and the repository separated by the
/// first double hyphen. `None` when the prefix or the separator is
/// missing.
pub open spec fn spec_parse_model_dir(name: Seq<char>) -> Option<(Seq<char>, Seq<char>)> {
    if !spec_starts_with(name, "models--"@) {
        None
    } else {
        let rest = spec_strip_models_prefix(name.skip(8));
        let i = spec_find_dd(rest);
        if i == rest.len() {
            None
        } else {
            Some((rest.take(i), rest.skip(i + 2)))
        }
    }
}

/// Strips every further repetition of the cache prefix, as the caller's
/// prefix-trimming does.
pub open spec fn spec_strip_models_prefix(s: Seq<char>) -> Seq<char>
    decreases s.len(),
{
    if spec_starts_with(s, "models--"@) && s.len() >= 8 {
        spec_strip_models_prefix(s.skip(8))
    } else {
        s
    }
}

/// Index of the first double hyphen, or `s.len()` if absent.
pub open spec fn spec_find_dd(s: Seq<char>) -> int
    decreases s.len(),
{
    if s.len() < 2 {
        s.len() as int
    } else if s[0] == '-' && s[1] == '-' {
        0
    } else {
        1 + spec_find_dd(s.drop_first())
    }
}

proof fn lemma_find_dd(s: Seq<char>)
    ensures
        0 <= spec_find_dd(s) <= s.len(),
        spec_find_dd(s) + 2 <= s.len() ==> s[spec_find_dd(s)] == '-' && s[spec_find_dd(s) + 1]
            == '-',
        spec_find_dd(s) < s.len() ==> spec_find_dd(s) + 2 <= s.len(),
    decreases s.len(),
{
    if s.len() >= 2 && !(s[0] == '-' && s[1] == '-') {
        let t = s.drop_first();
        lemma_find_dd(t);
        assert(forall|j: int| 0 <= j < t.len() ==> t[j] == s[j + 1]);
    }
}

proof fn lemma_find_dd_unique(s: Seq<char>, i: int)
    requires
        0 <= i <= s.len(),
        forall|j: int| 0 <= j < i ==> !(#[trigger] s[j] == '-' && j + 1 < s.len() && s[j + 1] == '-'),
        i + 2 <= s.len() ==> (s[i] == '-' && s[i + 1] == '-'),
        i < s.len() ==> i + 2 <= s.len(),
    ensures
        i == spec_find_dd(s),
    decreases s.len(),
{
    if s.len() < 2 {
        if i < s.len() {
            assert(i + 2 <= s.len());
            assert(false);
        }
    } else if s[0] == '-' && s[1] == '-' {
        assert(i == 0);
    } else {
        assert(i > 0);
        let t = s.drop_first();
        assert(forall|j: int| 0 <= j < t.len() ==> t[j] == s[j + 1]);
        lemma_find_dd_unique(t, i - 1);
    }
}

fn find_dd(s: &str) -> (i: usize)
    ensures
        i as int == spec_find_dd(s@),
        i <= s@.len(),
{
    let n = s.unicode_len();
    if n < 2 {
        proof {
            lemma_find_dd_unique(s@, n as int);
        }
        return n;
    }
    let mut i: usize = 0;
    loop
        invariant
            n == s@.len(),
            n >= 2,
            i + 1 <= n,
            forall|j: int|
                0 <= j < i ==> !(#[trigger] s@[j] == '-' && j + 1 < s@.len() && s@[j + 1] == '-'),
        ensures
            i + 1 <= n,
            forall|j: int|
                0 <= j < i ==> !(#[trigger] s@[j] == '-' && j + 1 < s@.len() && s@[j + 1] == '-'),
            i + 1 < n ==> (s@[i as int] == '-' && s@[i + 1] == '-'),
        decreases n - i,
    {
        if i + 1 >= n {
            break ;
        }
        if s.get_char(i) == '-' && s.get_char(i + 1) == '-' {
            break ;
        }
        i += 1;
    }
    if i + 1 < n {
        proof {
            lemma_find_dd_unique(s@, i as int);
        }
        i
    } else {
        proof {
            assert(forall|j: int|
                0 <= j < n ==> !(#[trigger] s@[j] == '-' && j + 1 < s@.len() && s@[j + 1] == '-'));
            lemma_find_dd_unique(s@, n as int);
        }
        n
    }
}

fn strip_models_prefix(s: &str) -> (r: &str)
    ensures
        r@ == spec_strip_models_prefix(s@),
    decreases s@.len(),
{
    let n = s.unicode_len();
    if str_starts_with(s, "models--") && n >= 8 {
        let rest = s.substring_char(8, n);
        proof {
            assert(rest@ =~= s@.skip(8));
        }
        strip_models_prefix(rest)
    } else {
        s
    }
}

/// Splits a cache directory name into the repository identifier's
/// organization and name.
pub fn parse_model_dir_name(name: &str) -> (r: Option<(String, String)>)
    ensures
        r.deep_view() == spec_parse_model_dir(name@),
{
    let n = name.unicode_len();
    if !str_starts_with(name, "models--") {
        return None;
    }
    proof {
        reveal_strlit("models--");
    }
    let after = name.substring_char(8, n);
    proof {
        assert(after@ =~= name@.skip(8));
    }
    let rest = strip_models_prefix(after);
    let m = rest.unicode_len();
    let i = find_dd(rest);
    proof {
        lemma_find_dd(rest@);
    }
    if i == m {
        return None;
    }
    let org = rest.substring_char(0, i);
    let repo = rest.substring_char(i + 2, m);
    proof {
        assert(org@ =~= rest@.take(i as int));
        assert(repo@ =~= rest@.skip(i + 2));
    }
    Some((String::from_str(org), String::from_str(repo)))
}

/// Joins organization and repository into the repository identifier.
pub fn join_repo_id(org: &String, repo: &String) -> (r: String)
    ensures
        r@ == org@ + "/"@ + repo@,
{
    org.clone().concat("/").concat(repo.as_str())
}

/// The one-line interpreter script that fetches a repository snapshot into
/// the local cache.
pub fn download_script(repo_id: &String) -> (r: String)
    ensures
        r@ == "from huggingface_hub import snapshot_download; snapshot_download(repo_id=\""@
            + repo_id@ + "\")"@,
{
    String::from_str("from huggingface_hub import snapshot_download; snapshot_download(repo_id=\"")
        .concat(repo_id.as_str()).concat("\")")
}

/// The fixed model catalog: the speech-to-text, language and text-to-speech
/// models the backend serves, before any download probe.
pub fn default_models() -> (r: Vec<ModelInfo>)
    ensures
        r@.len() == 3,
        r@[0].id@ == "stt"@,
        r@[0].name@ == "Whisper Large V3 Turbo"@,
        r@[0].model_type@ == "stt"@,
        r@[0].repo_id@ == "mlx-community/whisper-large-v3-turbo"@,
        r@[1].id@ == "llm"@,
        r@[1].name@ == "Ministral 3 3B Instruct (2512)"@,
        r@[1].model_type@ == "llm"@,
        r@[1].repo_id@ == "mlx-community/Ministral-3-3B-Instruct-2512-4bit"@,
        r@[2].id@ == "tts"@,
        r@[2].name@ == "Chatterbox TTS Turbo (FP16)"@,
        r@[2].model_type@ == "tts"@,
        r@[2].repo_id@ == "mlx-community/chatterbox-turbo-fp16"@,
        forall|i: int| 0 <= i < 3 ==> !r@[i].downloaded && r@[i].size_estimate is None,
{
    let mut v: Vec<ModelInfo> = Vec::new();
    v.push(
        ModelInfo {
            id: String::from_str("stt"),
            name: String::from_str("Whisper Large V3 Turbo"),
            model_type: String::from_str("stt"),
            repo_id: String::from_str("mlx-community/whisper-large-v3-turbo"),
            downloaded: false,
            size_estimate: None,
        },
    );
    v.push(
        ModelInfo {
            id: String::from_str("llm"),
            name: String::from_str("Ministral 3 3B Instruct (2512)"),
            model_type: String::from_str("llm"),
            repo_id: String::from_str("mlx-community/Ministral-3-3B-Instruct-2512-4bit"),
            downloaded: false,
            size_estimate: None,
        },
    );
    v.push(
        ModelInfo {
            id: String::from_str("tts"),
            name: String::from_str("Chatterbox TTS Turbo (FP16)"),
            model_type: String::from_str("tts"),
            repo_id: String::from_str("mlx-community/chatterbox-turbo-fp16"),
            downloaded: false,
            size_estimate: None,
        },
    );
    v
}

} // verus!
