//! Planning the dependency installation: which specifier must be installed
//! in isolation, what the bulk batch holds, and the exact installer
//! argument lists to run, in order.

use vstd::prelude::*;
use vstd::string::StringExecFns;

use crate::errors::SetupError;
use crate::text::{spec_starts_with, str_starts_with};

verus! {

/// The dependency family that must be installed in isolation, without
/// automatic dependency resolution, before the bulk batch.
pub open spec fn is_special(dep: Seq<char>) -> bool {
    spec_starts_with(dep, "mlx-audio"@)
}

/// The specifiers of the special family, in order of appearance.
pub open spec fn spec_specials(deps: Seq<Seq<char>>) -> Seq<Seq<char>>
    decreases deps.len(),
{
    if deps.len() == 0 {
        Seq::empty()
    } else {
        let rest = spec_specials(deps.drop_first());
        if is_special(deps[0]) {
            seq![deps[0]] + rest
        } else {
            rest
        }
    }
}

/// The specifiers outside the special family, in order of appearance.
pub open spec fn spec_bulk(deps: Seq<Seq<char>>) -> Seq<Seq<char>>
    decreases deps.len(),
{
    if deps.len() == 0 {
        Seq::empty()
    } else {
        let rest = spec_bulk(deps.drop_first());
        if is_special(deps[0]) {
            rest
        } else {
            seq![deps[0]] + rest
        }
    }
}

proof fn lemma_specials_concat(a: Seq<Seq<char>>, b: Seq<Seq<char>>)
    ensures
        spec_specials(a + b) == spec_specials(a) + spec_specials(b),
        spec_bulk(a + b) == spec_bulk(a) + spec_bulk(b),
    decreases a.len(),
{
    if a.len() == 0 {
        assert(a + b =~= b);
        assert(spec_specials(a) + spec_specials(b) =~= spec_specials(b));
        assert(spec_bulk(a) + spec_bulk(b) =~= spec_bulk(b));
    } else {
        assert((a + b)[0] == a[0]);
        assert((a + b).drop_first() =~= a.drop_first() + b);
        lemma_specials_concat(a.drop_first(), b);
        if is_special(a[0]) {
            assert(seq![a[0]] + (spec_specials(a.drop_first()) + spec_specials(b)) =~= (seq![a[0]]
                + spec_specials(a.drop_first())) + spec_specials(b));
        } else {
            assert(seq![a[0]] + (spec_bulk(a.drop_first()) + spec_bulk(b)) =~= (seq![a[0]]
                + spec_bulk(a.drop_first())) + spec_bulk(b));
        }
    }
}

/// How the declared specifiers will be installed: the special family alone
/// first, if present, then everything else in one batch.
#[derive(Debug, PartialEq, Eq)]
pub struct InstallPlan {
    /// The one specifier of the special family, if the manifest has one.
    pub special: Option<String>,
    /// All other specifiers, in manifest order.
    pub rest: Vec<String>,
}

/// Splits the declared specifiers into the install plan.
///
/// Returns `ManifestEmpty` exactly when no specifier was declared, and
/// `DuplicateSpecialDependency` exactly when the special family appears
/// more than once.
pub fn plan_install(deps: &Vec<String>) -> (r: Result<InstallPlan, SetupError>)
    ensures
        match r {
            Ok(plan) => {
                &&& deps.deep_view().len() > 0
                &&& spec_specials(deps.deep_view()).len() <= 1
                &&& plan.rest.deep_view() == spec_bulk(deps.deep_view())
                &&& plan.special.deep_view() == (if spec_specials(deps.deep_view()).len() == 1 {
                    Some(spec_specials(deps.deep_view())[0])
                } else {
                    None::<Seq<char>>
                })
            },
            Err(SetupError::ManifestEmpty) => deps.deep_view().len() == 0,
            Err(SetupError::DuplicateSpecialDependency) => spec_specials(
                deps.deep_view(),
            ).len() >= 2,
            Err(_) => false,
        },
{
    let n = deps.len();
    if n == 0 {
        return Err(SetupError::ManifestEmpty);
    }
    let mut special: Option<String> = None;
    let mut rest: Vec<String> = Vec::new();
    let mut k: usize = 0;
    proof {
        assert(deps.deep_view().take(0) =~= Seq::<Seq<char>>::empty());
        assert(rest.deep_view() =~= spec_bulk(deps.deep_view().take(0)));
    }
    while k < n
        invariant
            k <= n,
            n == deps@.len(),
            n > 0,
            rest.deep_view() == spec_bulk(deps.deep_view().take(k as int)),
            spec_specials(deps.deep_view().take(k as int)).len() <= 1,
            special.deep_view() == (if spec_specials(deps.deep_view().take(k as int)).len() == 1 {
                Some(spec_specials(deps.deep_view().take(k as int))[0])
            } else {
                None::<Seq<char>>
            }),
        decreases n - k,
    {
        let ghost taken = deps.deep_view().take(k as int);
        let ghost one = seq![deps.deep_view()[k as int]];
        proof {
            reveal_with_fuel(spec_specials, 2);
            reveal_with_fuel(spec_bulk, 2);
            assert(deps.deep_view().take(k + 1) =~= taken + one);
            lemma_specials_concat(taken, one);
            assert(one.drop_first() =~= Seq::<Seq<char>>::empty());
            assert(one.drop_first() == Seq::<Seq<char>>::empty());
            if is_special(one[0]) {
                assert(spec_specials(one) =~= one);
                assert(spec_bulk(one) =~= Seq::<Seq<char>>::empty());
                assert(spec_bulk(taken) + spec_bulk(one) =~= spec_bulk(taken));
            } else {
                assert(spec_bulk(one) =~= one);
                assert(spec_specials(one) =~= Seq::<Seq<char>>::empty());
                assert(spec_specials(taken) + spec_specials(one) =~= spec_specials(taken));
            }
            assert(deps.deep_view()[k as int] == deps@[k as int]@);
        }
        let dep = &deps[k];
        if str_starts_with(dep.as_str(), "mlx-audio") {
            if special.is_some() {
                proof {
                    let full = deps.deep_view();
                    assert(full.take(k + 1) + full.skip(k + 1) =~= full);
                    lemma_specials_concat(full.take(k + 1), full.skip(k + 1));
                }
                return Err(SetupError::DuplicateSpecialDependency);
            }
            special = Some(dep.clone());
            proof {
                assert(spec_specials(taken + one) =~= seq![deps.deep_view()[k as int]]);
            }
        } else {
            let ghost old_rest = rest.deep_view();
            rest.push(dep.clone());
            proof {
                assert(rest.deep_view() =~= old_rest + one);
            }
        }
        k += 1;
    }
    proof {
        assert(deps.deep_view().take(n as int) =~= deps.deep_view());
    }
    Ok(InstallPlan { special, rest })
}

/// Arguments of the preliminary installer self-upgrade.
pub fn pip_upgrade_args() -> (r: Vec<String>)
    ensures
        r.deep_view() == seq!["install"@, "--upgrade"@, "pip"@],
{
    let mut v: Vec<String> = Vec::new();
    v.push(String::from_str("install"));
    v.push(String::from_str("--upgrade"));
    v.push(String::from_str("pip"));
    proof {
        assert(v.deep_view() =~= seq!["install"@, "--upgrade"@, "pip"@]);
    }
    v
}

/// Arguments of the isolated install of the special family: forced
/// reinstall, no automatic dependency resolution.
pub fn special_install_args(special: &String) -> (r: Vec<String>)
    ensures
        r.deep_view() == seq![
            "install"@,
            "--upgrade"@,
            "--force-reinstall"@,
            "--no-deps"@,
            special@,
        ],
{
    let mut v: Vec<String> = Vec::new();
    v.push(String::from_str("install"));
    v.push(String::from_str("--upgrade"));
    v.push(String::from_str("--force-reinstall"));
    v.push(String::from_str("--no-deps"));
    v.push(special.clone());
    proof {
        assert(v.deep_view() =~= seq![
            "install"@,
            "--upgrade"@,
            "--force-reinstall"@,
            "--no-deps"@,
            special@,
        ]);
    }
    v
}

/// Arguments of the bulk install: forced reinstall of every remaining
/// specifier in one batch.
pub fn bulk_install_args(rest: &Vec<String>) -> (r: Vec<String>)
    ensures
        r.deep_view() == seq!["install"@, "--upgrade"@, "--force-reinstall"@] + rest.deep_view(),
{
    let mut v: Vec<String> = Vec::new();
    v.push(String::from_str("install"));
    v.push(String::from_str("--upgrade"));
    v.push(String::from_str("--force-reinstall"));
    let n = rest.len();
    let mut k: usize = 0;
    proof {
        assert(rest.deep_view().take(0) =~= Seq::<Seq<char>>::empty());
        assert(v.deep_view() =~= seq!["install"@, "--upgrade"@, "--force-reinstall"@]
            + rest.deep_view().take(0));
    }
    while k < n
        invariant
            k <= n,
            n == rest@.len(),
            v.deep_view() == seq!["install"@, "--upgrade"@, "--force-reinstall"@]
                + rest.deep_view().take(k as int),
        decreases n - k,
    {
        let ghost old_v = v.deep_view();
        v.push(rest[k].clone());
        proof {
            assert(v.deep_view() =~= old_v + seq![rest.deep_view()[k as int]]);
            assert(rest.deep_view().take(k + 1) =~= rest.deep_view().take(k as int) + seq![
                rest.deep_view()[k as int],
            ]);
            assert((seq!["install"@, "--upgrade"@, "--force-reinstall"@] + rest.deep_view().take(
                k as int,
            )) + seq![rest.deep_view()[k as int]] =~= seq![
                "install"@,
                "--upgrade"@,
                "--force-reinstall"@,
            ] + rest.deep_view().take(k + 1));
        }
        k += 1;
    }
    proof {
        assert(rest.deep_view().take(n as int) =~= rest.deep_view());
    }
    v
}

/// The installer invocations that realize an install plan, in run order:
/// the special family alone (with resolution disabled) first when present,
/// then the bulk batch.
pub fn install_commands(deps: &Vec<String>) -> (r: Result<Vec<Vec<String>>, SetupError>)
    ensures
        match r {
            Ok(cmds) => {
                &&& deps.deep_view().len() > 0
                &&& spec_specials(deps.deep_view()).len() <= 1
                &&& (spec_specials(deps.deep_view()).len() == 1 ==> cmds.deep_view() == seq![
                    seq![
                        "install"@,
                        "--upgrade"@,
                        "--force-reinstall"@,
                        "--no-deps"@,
                        spec_specials(deps.deep_view())[0],
                    ],
                    seq!["install"@, "--upgrade"@, "--force-reinstall"@] + spec_bulk(
                        deps.deep_view(),
                    ),
                ])
                &&& (spec_specials(deps.deep_view()).len() == 0 ==> cmds.deep_view() == seq![
                    seq!["install"@, "--upgrade"@, "--force-reinstall"@] + spec_bulk(
                        deps.deep_view(),
                    ),
                ])
            },
            Err(SetupError::ManifestEmpty) => deps.deep_view().len() == 0,
            Err(SetupError::DuplicateSpecialDependency) => spec_specials(
                deps.deep_view(),
            ).len() >= 2,
            Err(_) => false,
        },
{
    let plan = match plan_install(deps) {
        Ok(plan) => plan,
        Err(e) => {
            return Err(e);
        },
    };
    let mut cmds: Vec<Vec<String>> = Vec::new();
    match &plan.special {
        Some(special) => {
            cmds.push(special_install_args(special));
        },
        None => {},
    }
    cmds.push(bulk_install_args(&plan.rest));
    proof {
        if spec_specials(deps.deep_view()).len() == 1 {
            assert(cmds.deep_view() =~= seq![
                seq![
                    "install"@,
                    "--upgrade"@,
                    "--force-reinstall"@,
                    "--no-deps"@,
                    spec_specials(deps.deep_view())[0],
                ],
                seq!["install"@, "--upgrade"@, "--force-reinstall"@] + spec_bulk(deps.deep_view()),
            ]);
        } else {
            assert(cmds.deep_view() =~= seq![
                seq!["install"@, "--upgrade"@, "--force-reinstall"@] + spec_bulk(deps.deep_view()),
            ]);
        }
    }
    Ok(cmds)
}

} // verus!
