//! The rules of the deployment check: which environment variables,
//! programs and compilation targets a setup needs, how much each missing
//! one matters, and what the check concludes.
use vstd::prelude::*;
use crate::codec::chars_of;

verus! {

/// How much a missing item matters.
#[derive(Clone, Copy, Debug, PartialEq, Eq, Structural)]
pub enum EnvironmentCheckErrorTypes {
    /// The application will most likely not start.
    Error,
    /// The application may start, but the setup should be reviewed.
    Warning,
}

/// What the whole check concludes.
#[derive(Clone, Copy, Debug, PartialEq, Eq, Structural)]
pub enum SetupVerdict {
    /// Nothing is missing.
    Ready,
    /// Something is missing, but nothing fatal.
    Degraded { warnings: usize },
    /// At least one fatal item is missing.
    Broken { fatal: usize, warnings: usize },
}

/// What the deployment check found: its problems in order, and its verdict.
#[derive(Clone, Debug)]
pub struct SetupReport {
    pub problems: Vec<EnvironmentCheckErrorTypes>,
    pub verdict: SetupVerdict,
}

/// The deployment set-up actions.
pub struct EnvAction;

/// The number of environment variables that are checked.
pub const ENV_VAR_COUNT: usize = 13;
/// The number of programs that are looked for.
pub const PROGRAM_COUNT: usize = 6;

/// The number of fatal problems among `problems`.
pub open spec fn fatal_count(problems: Seq<EnvironmentCheckErrorTypes>) -> nat
    decreases problems.len(),
{
    if problems.len() == 0 {
        0
    } else {
        fatal_count(problems.drop_last()) + if problems.last() == EnvironmentCheckErrorTypes::Error {
            1nat
        } else {
            0nat
        }
    }
}

/// `needle` occurs in `haystack` at `at`.
pub open spec fn occurs_at(haystack: Seq<char>, needle: Seq<char>, at: int) -> bool {
    0 <= at && at + needle.len() <= haystack.len() && haystack.subrange(at, at + needle.len())
        == needle
}

/// The problem that each missing item raises: `present[i]` tells whether
/// item `i` was found, `severity[i]` how much it matters.
pub open spec fn missing(present: Seq<bool>, severity: Seq<EnvironmentCheckErrorTypes>) -> Seq<
    EnvironmentCheckErrorTypes,
>
    decreases present.len(),
{
    if present.len() == 0 || severity.len() < present.len() {
        Seq::empty()
    } else {
        let i = present.len() - 1;
        let rest = missing(present.drop_last(), severity.subrange(0, i));
        if present[i] {
            rest
        } else {
            rest.push(severity[i])
        }
    }
}

/// The environment variables a setup needs, with how much each matters.
pub open spec fn env_var_rules() -> Seq<(Seq<char>, EnvironmentCheckErrorTypes)> {
    seq![
        ("DATABASE_URL"@, EnvironmentCheckErrorTypes::Warning),
        ("POSTGRES_DB"@, EnvironmentCheckErrorTypes::Error),
        ("POSTGRES_USER"@, EnvironmentCheckErrorTypes::Error),
        ("POSTGRES_PASSWORD"@, EnvironmentCheckErrorTypes::Error),
        ("REDIS_HOST"@, EnvironmentCheckErrorTypes::Error),
        ("POSTGRES_PORT"@, EnvironmentCheckErrorTypes::Warning),
        ("JWT_SECRET"@, EnvironmentCheckErrorTypes::Error),
        ("REFRESH_TOKEN_SECRET"@, EnvironmentCheckErrorTypes::Error),
        ("UID"@, EnvironmentCheckErrorTypes::Warning),
        ("GID"@, EnvironmentCheckErrorTypes::Warning),
        ("SSL_CERTIFICATE_PATH"@, EnvironmentCheckErrorTypes::Warning),
        ("SSL_CERTIFICATE_KEY"@, EnvironmentCheckErrorTypes::Warning),
        ("SSL_DHPARAM_PATH"@, EnvironmentCheckErrorTypes::Warning),
    ]
}

/// The programs a setup needs on the path.
pub open spec fn program_rules() -> Seq<Seq<char>> {
    seq!["docker"@, "cargo"@, "docker-compose"@, "npx"@, "trunk"@, "rustup"@]
}

/// What the check concludes from `problems`: ready when there is none,
/// broken when one is fatal, degraded otherwise.
pub open spec fn verdict_of(problems: Seq<EnvironmentCheckErrorTypes>) -> SetupVerdict {
    if problems.len() == 0 {
        SetupVerdict::Ready
    } else if fatal_count(problems) == 0 {
        SetupVerdict::Degraded { warnings: problems.len() as usize }
    } else {
        SetupVerdict::Broken {
            fatal: fatal_count(problems) as usize,
            warnings: (problems.len() - fatal_count(problems)) as usize,
        }
    }
}

impl EnvAction {
    /// The environment variables a setup needs, with how much each matters.
    pub fn env_vars_to_check() -> (r: Vec<(&'static str, EnvironmentCheckErrorTypes)>)
        ensures
            r@.len() == ENV_VAR_COUNT,
            r@.map_values(|e: (&'static str, EnvironmentCheckErrorTypes)| (e.0@, e.1))
                == env_var_rules(),
    {
        let r = vec![
            ("DATABASE_URL", EnvironmentCheckErrorTypes::Warning),
            ("POSTGRES_DB", EnvironmentCheckErrorTypes::Error),
            ("POSTGRES_USER", EnvironmentCheckErrorTypes::Error),
            ("POSTGRES_PASSWORD", EnvironmentCheckErrorTypes::Error),
            ("REDIS_HOST", EnvironmentCheckErrorTypes::Error),
            ("POSTGRES_PORT", EnvironmentCheckErrorTypes::Warning),
            ("JWT_SECRET", EnvironmentCheckErrorTypes::Error),
            ("REFRESH_TOKEN_SECRET", EnvironmentCheckErrorTypes::Error),
            ("UID", EnvironmentCheckErrorTypes::Warning),
            ("GID", EnvironmentCheckErrorTypes::Warning),
            ("SSL_CERTIFICATE_PATH", EnvironmentCheckErrorTypes::Warning),
            ("SSL_CERTIFICATE_KEY", EnvironmentCheckErrorTypes::Warning),
            ("SSL_DHPARAM_PATH", EnvironmentCheckErrorTypes::Warning),
        ];
        proof {
            assert(r@.map_values(|e: (&'static str, EnvironmentCheckErrorTypes)| (e.0@, e.1))
                =~= env_var_rules());
        }
        r
    }

    /// The programs that a setup needs on the path.
    pub fn programs_to_check() -> (r: Vec<&'static str>)
        ensures
            r@.len() == PROGRAM_COUNT,
            r@.map_values(|p: &'static str| p@) == program_rules(),
    {
        let r = vec!["docker", "cargo", "docker-compose", "npx", "trunk", "rustup"];
        proof {
            assert(r@.map_values(|p: &'static str| p@) =~= program_rules());
        }
        r
    }

    /// The compilation target that the front end needs.
    pub fn target_to_check() -> (r: &'static str)
        ensures
            r@ == "wasm32-unknown-unknown"@,
    {
        "wasm32-unknown-unknown"
    }

    /// The problems raised by missing items, in order.
    pub fn missing_items(present: &Vec<bool>, severity: &Vec<EnvironmentCheckErrorTypes>) -> (r: Vec<
        EnvironmentCheckErrorTypes,
    >)
        requires
            present@.len() <= severity@.len(),
        ensures
            r@ == missing(present@, severity@.subrange(0, present@.len() as int)),
    {
        let mut r: Vec<EnvironmentCheckErrorTypes> = Vec::new();
        let mut i: usize = 0;
        while i < present.len()
            invariant
                i <= present@.len() <= severity@.len(),
                r@ == missing(present@.subrange(0, i as int), severity@.subrange(0, i as int)),
            decreases present.len() - i,
        {
            proof {
                let p = present@.subrange(0, i + 1);
                let s = severity@.subrange(0, i + 1);
                assert(p.drop_last() =~= present@.subrange(0, i as int));
                assert(s.subrange(0, i as int) =~= severity@.subrange(0, i as int));
            }
            if !present[i] {
                r.push(severity[i]);
            }
            i = i + 1;
        }
        proof {
            assert(present@.subrange(0, i as int) =~= present@);
        }
        r
    }

    /// Whether the installed targets listed in `listing` include `target`.
    pub fn lists_target(listing: &str, target: &str) -> (r: bool)
        ensures
            r == exists|at: int| occurs_at(listing@, target@, at),
    {
        let h = chars_of(listing);
        let n = chars_of(target);
        if n.len() > h.len() {
            proof {
                assert forall|at: int| !occurs_at(listing@, target@, at) by {}
            }
            return false;
        }
        let hl: usize = h.len();
        let mut at: usize = 0;
        while at <= h.len() - n.len()
            invariant
                hl == h@.len(),
                h@ == listing@,
                n@ == target@,
                n@.len() <= h@.len(),
                at <= h@.len() - n@.len() + 1,
                forall|k: int| 0 <= k < at ==> !occurs_at(listing@, target@, k),
            decreases h.len() - at,
        {
            let mut k: usize = 0;
            let mut same = true;
            while k < n.len()
                invariant
                    at + n@.len() <= h@.len(),
                    hl == h@.len(),
                    h@ == listing@,
                    n@ == target@,
                    k <= n@.len(),
                    same == forall|j: int| 0 <= j < k ==> h@[at + j] == n@[j],
                decreases n.len() - k,
            {
                if h[at + k] != n[k] {
                    same = false;
                }
                k = k + 1;
            }
            if same {
                proof {
                    assert(h@.subrange(at as int, at + n@.len()) =~= n@);
                    assert(occurs_at(listing@, target@, at as int));
                }
                return true;
            }
            proof {
                assert(!occurs_at(listing@, target@, at as int)) by {
                    if occurs_at(listing@, target@, at as int) {
                        assert forall|j: int| 0 <= j < n@.len() implies h@[at + j] == n@[j] by {
                            assert(h@.subrange(at as int, at + n@.len())[j] == h@[at + j]);
                        }
                    }
                }
            }
            at = at + 1;
        }
        false
    }

    /// The whole check, from what was probed: which environment variables
    /// are set, which programs are on the path, and the listing of installed
    /// targets if it could be had. A missing program, a missing target or a
    /// missing listing is a warning.
    pub fn check_setup(
        env_present: &Vec<bool>,
        programs_present: &Vec<bool>,
        targets_listing: &Option<String>,
    ) -> (r: SetupReport)
        requires
            env_present@.len() == ENV_VAR_COUNT,
            programs_present@.len() == PROGRAM_COUNT,
        ensures
            r.problems@ == missing(env_present@, env_var_rules().map_values(
                |e: (Seq<char>, EnvironmentCheckErrorTypes)| e.1,
            )) + missing(
                programs_present@,
                Seq::new(PROGRAM_COUNT as nat, |i: int| EnvironmentCheckErrorTypes::Warning),
            ) + match targets_listing {
                Some(l) => if exists|at: int| occurs_at(l@, "wasm32-unknown-unknown"@, at) {
                    Seq::empty()
                } else {
                    seq![EnvironmentCheckErrorTypes::Warning]
                },
                None => seq![EnvironmentCheckErrorTypes::Warning],
            },
            r.verdict == verdict_of(r.problems@),
    {
        let vars = Self::env_vars_to_check();
        let mut severity: Vec<EnvironmentCheckErrorTypes> = Vec::new();
        let mut i: usize = 0;
        while i < vars.len()
            invariant
                i <= vars@.len(),
                vars@.map_values(|e: (&'static str, EnvironmentCheckErrorTypes)| (e.0@, e.1))
                    == env_var_rules(),
                severity@ == env_var_rules().map_values(
                    |e: (Seq<char>, EnvironmentCheckErrorTypes)| e.1,
                ).subrange(0, i as int),
            decreases vars.len() - i,
        {
            severity.push(vars[i].1);
            i = i + 1;
            proof {
                assert(severity@ =~= env_var_rules().map_values(
                    |e: (Seq<char>, EnvironmentCheckErrorTypes)| e.1,
                ).subrange(0, i as int));
            }
        }
        proof {
            let all = env_var_rules().map_values(|e: (Seq<char>, EnvironmentCheckErrorTypes)| e.1);
            assert(all.len() == ENV_VAR_COUNT);
            assert(all.subrange(0, i as int) =~= all);
        }
        let mut warnings: Vec<EnvironmentCheckErrorTypes> = Vec::new();
        let mut k: usize = 0;
        while k < PROGRAM_COUNT
            invariant
                k <= PROGRAM_COUNT,
                warnings@ == Seq::new(k as nat, |i: int| EnvironmentCheckErrorTypes::Warning),
            decreases PROGRAM_COUNT - k,
        {
            warnings.push(EnvironmentCheckErrorTypes::Warning);
            k = k + 1;
            proof {
                assert(warnings@ =~= Seq::new(k as nat, |i: int| EnvironmentCheckErrorTypes::Warning));
            }
        }
        let mut problems = Self::missing_items(env_present, &severity);
        let more = Self::missing_items(programs_present, &warnings);
        let ghost first = problems@;
        let mut j: usize = 0;
        while j < more.len()
            invariant
                j <= more@.len(),
                problems@ == first + more@.subrange(0, j as int),
            decreases more.len() - j,
        {
            problems.push(more[j]);
            j = j + 1;
            proof {
                assert(problems@ =~= first + more@.subrange(0, j as int));
            }
        }
        proof {
            assert(more@.subrange(0, more@.len() as int) =~= more@);
            assert(severity@.subrange(0, env_present@.len() as int) =~= severity@);
            assert(warnings@.subrange(0, programs_present@.len() as int) =~= warnings@);
        }
        let ghost before_target = problems@;
        let target_found = match targets_listing {
            Some(l) => Self::lists_target(l.as_str(), Self::target_to_check()),
            None => false,
        };
        if !target_found {
            problems.push(EnvironmentCheckErrorTypes::Warning);
        }
        proof {
            let tail = match targets_listing {
                Some(l) => if exists|at: int| occurs_at(l@, "wasm32-unknown-unknown"@, at) {
                    Seq::empty()
                } else {
                    seq![EnvironmentCheckErrorTypes::Warning]
                },
                None => seq![EnvironmentCheckErrorTypes::Warning],
            };
            assert(problems@ =~= before_target + tail);
        }
        let verdict = Self::verdict(&problems);
        SetupReport { problems, verdict }
    }

    /// What the check concludes from the problems it found.
    pub fn verdict(problems: &Vec<EnvironmentCheckErrorTypes>) -> (r: SetupVerdict)
        ensures
            r == verdict_of(problems@),
    {
        let mut fatal: usize = 0;
        let mut i: usize = 0;
        while i < problems.len()
            invariant
                i <= problems@.len(),
                fatal == fatal_count(problems@.subrange(0, i as int)),
                fatal <= i,
            decreases problems.len() - i,
        {
            proof {
                assert(problems@.subrange(0, i + 1).drop_last() =~= problems@.subrange(0, i as int));
            }
            if problems[i] == EnvironmentCheckErrorTypes::Error {
                fatal = fatal + 1;
            }
            i = i + 1;
        }
        proof {
            assert(problems@.subrange(0, i as int) =~= problems@);
        }
        if problems.len() == 0 {
            SetupVerdict::Ready
        } else if fatal == 0 {
            SetupVerdict::Degraded { warnings: problems.len() }
        } else {
            SetupVerdict::Broken { fatal, warnings: problems.len() - fatal }
        }
    }
}

} // verus!
