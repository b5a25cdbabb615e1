//! The path resolver: every filesystem location the supervisor uses,
//! derived from the application data root by pure joins, plus the ordered
//! candidate lists that are probed for the bootstrap interpreter and the
//! OCR binary. Existence probing itself is the caller's job; the first
//! existing candidate is selected here.

use vstd::prelude::*;
use vstd::string::StringExecFns;

verus! {

/// The host platforms the strategy tables distinguish.
#[derive(Clone, Copy, PartialEq, Eq, Structural, Debug)]
pub enum HostOs {
    Windows,
    MacOs,
    Linux,
    Other,
}

/// The database file inside the data root.
pub fn keero_db_path(root: &String) -> (r: String)
    ensures
        r@ == root@ + "/keero.db"@,
{
    root.clone().concat("/keero.db")
}

/// The voice-sample directory inside the data root.
pub fn voices_dir(root: &String) -> (r: String)
    ensures
        r@ == root@ + "/voices"@,
{
    root.clone().concat("/voices")
}

/// The image directory inside the data root.
pub fn images_dir(root: &String) -> (r: String)
    ensures
        r@ == root@ + "/images"@,
{
    root.clone().concat("/images")
}

/// The document directory inside the data root.
pub fn docs_dir(root: &String) -> (r: String)
    ensures
        r@ == root@ + "/Docs"@,
{
    root.clone().concat("/Docs")
}

/// The isolated-environment directory inside the data root.
pub fn venv_path(root: &String) -> (r: String)
    ensures
        r@ == root@ + "/python_env"@,
{
    root.clone().concat("/python_env")
}

/// The completion-marker file inside the data root: its presence records
/// that first-run setup finished.
pub fn setup_marker_path(root: &String) -> (r: String)
    ensures
        r@ == root@ + "/.setup_complete"@,
{
    root.clone().concat("/.setup_complete")
}

/// The directory inside the data root where the OCR engine may have been
/// installed.
pub fn tesseract_dir(root: &String) -> (r: String)
    ensures
        r@ == root@ + "/tesseract"@,
{
    root.clone().concat("/tesseract")
}

/// Index of the first `true`, or `s.len()` if there is none.
pub open spec fn spec_first_true(s: Seq<bool>) -> int
    decreases s.len(),
{
    if s.len() == 0 {
        0
    } else if s[0] {
        0
    } else {
        1 + spec_first_true(s.drop_first())
    }
}

pub proof fn lemma_first_true(s: Seq<bool>)
    ensures
        0 <= spec_first_true(s) <= s.len(),
        forall|j: int| 0 <= j < spec_first_true(s) ==> !s[j],
        spec_first_true(s) < s.len() ==> s[spec_first_true(s)],
    decreases s.len(),
{
    if s.len() > 0 && !s[0] {
        let t = s.drop_first();
        lemma_first_true(t);
        assert(forall|j: int| 1 <= j < s.len() ==> s[j] == t[j - 1]);
    }
}

proof fn lemma_first_true_unique(s: Seq<bool>, i: int)
    requires
        0 <= i <= s.len(),
        forall|j: int| 0 <= j < i ==> !s[j],
        i == s.len() || s[i],
    ensures
        i == spec_first_true(s),
    decreases s.len(),
{
    if s.len() == 0 {
    } else if s[0] {
        assert(i == 0);
    } else {
        assert(i > 0);
        let t = s.drop_first();
        assert(forall|j: int| 0 <= j < i - 1 ==> t[j] == s[j + 1]);
        assert(i - 1 == t.len() || t[i - 1]);
        lemma_first_true_unique(t, i - 1);
    }
}

/// Selects the first candidate whose existence probe succeeded.
pub fn choose_first_existing(candidates: &Vec<String>, exists: &Vec<bool>) -> (r: Option<usize>)
    requires
        candidates@.len() == exists@.len(),
    ensures
        match r {
            Some(i) => i as int == spec_first_true(exists@) && i < exists@.len(),
            None => spec_first_true(exists@) == exists@.len(),
        },
{
    let n = exists.len();
    let mut i: usize = 0;
    loop
        invariant
            i <= n,
            n == exists@.len(),
            forall|j: int| 0 <= j < i ==> !exists@[j],
        ensures
            i <= n,
            forall|j: int| 0 <= j < i ==> !exists@[j],
            i == n || exists@[i as int],
        decreases n - i,
    {
        if i >= n {
            break ;
        }
        if exists[i] {
            break ;
        }
        i += 1;
    }
    proof {
        lemma_first_true_unique(exists@, i as int);
    }
    if i < n {
        Some(i)
    } else {
        None
    }
}

/// Selects the first candidate that exists, or the given fallback when the
/// probes all failed.
pub fn select_candidate_or(candidates: &Vec<String>, exists: &Vec<bool>, fallback: String) -> (r:
    String)
    requires
        candidates@.len() == exists@.len(),
    ensures
        spec_first_true(exists@) < exists@.len() ==> r@ == candidates.deep_view()[spec_first_true(
            exists@,
        )],
        spec_first_true(exists@) == exists@.len() ==> r@ == fallback@,
{
    proof {
        lemma_first_true(exists@);
    }
    match choose_first_existing(candidates, exists) {
        Some(i) => candidates[i].clone(),
        None => fallback,
    }
}

/// The ordered candidate locations of the bootstrap runtime root: the
/// development tree first, then the bundled resource, then the resource
/// tree a development bundle unpacks to. The caller probes them and falls
/// back to the bundled location.
pub fn bootstrap_root_candidates(dev_root: &String, resource_dir: &String) -> (r: Vec<String>)
    ensures
        r.deep_view() == seq![
            dev_root@ + "/resources/python_runtime"@,
            resource_dir@ + "/python_runtime"@,
            resource_dir@ + "/_up_/_up_/resources/python_runtime"@,
        ],
{
    let mut v: Vec<String> = Vec::new();
    v.push(dev_root.clone().concat("/resources/python_runtime"));
    v.push(resource_dir.clone().concat("/python_runtime"));
    v.push(resource_dir.clone().concat("/_up_/_up_/resources/python_runtime"));
    proof {
        assert(v.deep_view() =~= seq![
            dev_root@ + "/resources/python_runtime"@,
            resource_dir@ + "/python_runtime"@,
            resource_dir@ + "/_up_/_up_/resources/python_runtime"@,
        ]);
    }
    v
}

/// The interpreter candidates inside a bootstrap runtime root. The caller
/// probes them and falls back to the versioned name.
pub fn bootstrap_python_candidates(runtime_root: &String) -> (r: Vec<String>)
    ensures
        r.deep_view() == seq![
            runtime_root@ + "/python/bin/python"@,
            runtime_root@ + "/python/bin/python3"@,
        ],
{
    let mut v: Vec<String> = Vec::new();
    v.push(runtime_root.clone().concat("/python/bin/python"));
    v.push(runtime_root.clone().concat("/python/bin/python3"));
    proof {
        assert(v.deep_view() =~= seq![
            runtime_root@ + "/python/bin/python"@,
            runtime_root@ + "/python/bin/python3"@,
        ]);
    }
    v
}

/// The fallback interpreter inside a bootstrap runtime root, used when no
/// candidate exists.
pub fn bootstrap_python_fallback(runtime_root: &String) -> (r: String)
    ensures
        r@ == runtime_root@ + "/python/bin/python3.11"@,
{
    runtime_root.clone().concat("/python/bin/python3.11")
}

/// The interpreter candidates inside the isolated environment: one fixed
/// name on Windows, the ordered unversioned-then-versioned names elsewhere.
pub fn venv_python_candidates(venv: &String, os: HostOs) -> (r: Vec<String>)
    ensures
        os is Windows ==> r.deep_view() == seq![venv@ + "/Scripts/python.exe"@],
        !(os is Windows) ==> r.deep_view() == seq![
            venv@ + "/bin/python"@,
            venv@ + "/bin/python3"@,
            venv@ + "/bin/python3.12"@,
            venv@ + "/bin/python3.11"@,
        ],
{
    let mut v: Vec<String> = Vec::new();
    match os {
        HostOs::Windows => {
            v.push(venv.clone().concat("/Scripts/python.exe"));
            proof {
                assert(v.deep_view() =~= seq![venv@ + "/Scripts/python.exe"@]);
            }
        },
        _ => {
            v.push(venv.clone().concat("/bin/python"));
            v.push(venv.clone().concat("/bin/python3"));
            v.push(venv.clone().concat("/bin/python3.12"));
            v.push(venv.clone().concat("/bin/python3.11"));
            proof {
                assert(v.deep_view() =~= seq![
                    venv@ + "/bin/python"@,
                    venv@ + "/bin/python3"@,
                    venv@ + "/bin/python3.12"@,
                    venv@ + "/bin/python3.11"@,
                ]);
            }
        },
    }
    v
}

/// The fallback interpreter path inside the isolated environment, used on
/// non-Windows hosts when no candidate exists.
pub fn venv_python_fallback(venv: &String) -> (r: String)
    ensures
        r@ == venv@ + "/bin/python3"@,
{
    venv.clone().concat("/bin/python3")
}

/// The installer candidates inside the isolated environment.
pub fn venv_pip_candidates(venv: &String, os: HostOs) -> (r: Vec<String>)
    ensures
        os is Windows ==> r.deep_view() == seq![venv@ + "/Scripts/pip.exe"@],
        !(os is Windows) ==> r.deep_view() == seq![venv@ + "/bin/pip"@],
{
    let mut v: Vec<String> = Vec::new();
    match os {
        HostOs::Windows => {
            v.push(venv.clone().concat("/Scripts/pip.exe"));
            proof {
                assert(v.deep_view() =~= seq![venv@ + "/Scripts/pip.exe"@]);
            }
        },
        _ => {
            v.push(venv.clone().concat("/bin/pip"));
            proof {
                assert(v.deep_view() =~= seq![venv@ + "/bin/pip"@]);
            }
        },
    }
    v
}

/// The fallback installer path inside the isolated environment.
pub fn venv_pip_fallback(venv: &String) -> (r: String)
    ensures
        r@ == venv@ + "/bin/pip3"@,
{
    venv.clone().concat("/bin/pip3")
}

/// The ordered OCR-binary candidates: the per-platform subdirectory of the
/// app-data install location first, then the common system locations of the
/// platform. `program_files` is the Windows system program directory, if
/// the caller resolved one.
pub fn tesseract_candidates(base: &String, os: HostOs, program_files: &Option<String>) -> (r: Vec<
    String,
>)
    ensures
        os is Windows ==> r.deep_view() == seq![
            base@ + "/win/tesseract.exe"@,
            (match program_files.deep_view() {
                Some(pf) => pf,
                None => "C:\\Program Files"@,
            }) + "\\Tesseract-OCR\\tesseract.exe"@,
        ],
        os is MacOs ==> r.deep_view() == seq![
            base@ + "/mac/bin/tesseract"@,
            "/usr/local/bin/tesseract"@,
            "/opt/homebrew/bin/tesseract"@,
        ],
        os is Linux ==> r.deep_view() == seq![
            base@ + "/linux/bin/tesseract"@,
            "/usr/bin/tesseract"@,
        ],
        os is Other ==> r.deep_view() == Seq::<Seq<char>>::empty(),
{
    let mut v: Vec<String> = Vec::new();
    match os {
        HostOs::Windows => {
            v.push(base.clone().concat("/win/tesseract.exe"));
            let pf = match program_files {
                Some(pf) => pf.clone(),
                None => String::from_str("C:\\Program Files"),
            };
            v.push(pf.concat("\\Tesseract-OCR\\tesseract.exe"));
            proof {
                assert(v.deep_view() =~= seq![
                    base@ + "/win/tesseract.exe"@,
                    (match program_files.deep_view() {
                        Some(pf) => pf,
                        None => "C:\\Program Files"@,
                    }) + "\\Tesseract-OCR\\tesseract.exe"@,
                ]);
            }
        },
        HostOs::MacOs => {
            v.push(base.clone().concat("/mac/bin/tesseract"));
            v.push(String::from_str("/usr/local/bin/tesseract"));
            v.push(String::from_str("/opt/homebrew/bin/tesseract"));
            proof {
                assert(v.deep_view() =~= seq![
                    base@ + "/mac/bin/tesseract"@,
                    "/usr/local/bin/tesseract"@,
                    "/opt/homebrew/bin/tesseract"@,
                ]);
            }
        },
        HostOs::Linux => {
            v.push(base.clone().concat("/linux/bin/tesseract"));
            v.push(String::from_str("/usr/bin/tesseract"));
            proof {
                assert(v.deep_view() =~= seq![
                    base@ + "/linux/bin/tesseract"@,
                    "/usr/bin/tesseract"@,
                ]);
            }
        },
        HostOs::Other => {
            proof {
                assert(v.deep_view() =~= Seq::<Seq<char>>::empty());
            }
        },
    }
    v
}

} // verus!
