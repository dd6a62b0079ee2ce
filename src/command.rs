use vstd::prelude::*;
use vstd::string::StringExecFns;

verus! {

/// A request to open a session: its identifier, the child's working
/// directory, the terminal size, and an optional conversation to resume.
pub struct CreatePtyRequest {
    pub session_id: String,
    pub cwd: String,
    pub rows: u16,
    pub cols: u16,
    pub resume_session: Option<String>,
}

/// How the child of a new session is started: the program, its arguments,
/// the environment in the order the variables are set (a later setting of a
/// name wins), and the working directory.
pub struct CommandPlan {
    pub program: String,
    pub args: Vec<String>,
    pub env: Vec<(String, String)>,
    pub cwd: String,
}

/// The variables set on top of the inherited environment, in order.
pub open spec fn env_overrides() -> Seq<(Seq<char>, Seq<char>)> {
    seq![
        ("TERM"@, "xterm-256color"@),
        ("COLORTERM"@, "truecolor"@),
        ("TERM_PROGRAM"@, "hive"@),
        ("LANG"@, "en_US.UTF-8"@),
        ("LC_ALL"@, "en_US.UTF-8"@),
    ]
}

/// The arguments that ask the program to resume a conversation, if any.
pub open spec fn resume_args(resume: Option<Seq<char>>) -> Seq<Seq<char>> {
    match resume {
        Some(t) => seq!["--resume"@, t],
        None => Seq::empty(),
    }
}

pub open spec fn strings_view(v: Seq<String>) -> Seq<Seq<char>> {
    v.map_values(|s: String| s@)
}

pub open spec fn pairs_view(v: Seq<(String, String)>) -> Seq<(Seq<char>, Seq<char>)> {
    v.map_values(|p: (String, String)| (p.0@, p.1@))
}

/// The environment that results from setting the variables of `s` in order.
pub open spec fn effective_env(s: Seq<(Seq<char>, Seq<char>)>) -> Map<Seq<char>, Seq<char>>
    decreases s.len(),
{
    if s.len() == 0 {
        Map::empty()
    } else {
        effective_env(s.drop_last()).insert(s.last().0, s.last().1)
    }
}

/// The names that `env_overrides` sets.
pub open spec fn override_names() -> Set<Seq<char>> {
    set!["TERM"@, "COLORTERM"@, "TERM_PROGRAM"@, "LANG"@, "LC_ALL"@]
}

proof fn lemma_effective_env_push(s: Seq<(Seq<char>, Seq<char>)>, x: (Seq<char>, Seq<char>))
    ensures
        effective_env(s.push(x)) == effective_env(s).insert(x.0, x.1),
{
    assert(s.push(x).drop_last() =~= s);
}

/// The child of a session sees the inherited environment with the terminal
/// overrides on top: each override name has its override value, and every
/// other name is exactly as inherited.
pub proof fn lemma_child_environment(inherited: Seq<(Seq<char>, Seq<char>)>)
    ensures
        forall|i: int|
            0 <= i < env_overrides().len() ==> #[trigger] effective_env(
                inherited + env_overrides(),
            ).contains_key(env_overrides()[i].0) && effective_env(inherited + env_overrides())[env_overrides()[i].0]
                == env_overrides()[i].1,
        forall|k: Seq<char>|
            !override_names().contains(k) ==> (#[trigger] effective_env(
                inherited + env_overrides(),
            ).contains_key(k) <==> effective_env(inherited).contains_key(k)) && (
            effective_env(inherited).contains_key(k) ==> effective_env(inherited + env_overrides())[k]
                == effective_env(inherited)[k]),
{
    let o = env_overrides();
    let s0 = inherited;
    let s1 = s0.push(o[0]);
    let s2 = s1.push(o[1]);
    let s3 = s2.push(o[2]);
    let s4 = s3.push(o[3]);
    let s5 = s4.push(o[4]);
    assert(s5 =~= inherited + o);
    lemma_effective_env_push(s0, o[0]);
    lemma_effective_env_push(s1, o[1]);
    lemma_effective_env_push(s2, o[2]);
    lemma_effective_env_push(s3, o[3]);
    lemma_effective_env_push(s4, o[4]);
    reveal_strlit("TERM");
    reveal_strlit("COLORTERM");
    reveal_strlit("TERM_PROGRAM");
    reveal_strlit("LANG");
    reveal_strlit("LC_ALL");
    assert("TERM"@ != "LANG"@) by {
        assert("TERM"@[0] != "LANG"@[0]);
    }
    assert("TERM"@ != "COLORTERM"@) by {
        assert("TERM"@.len() != "COLORTERM"@.len());
    }
    assert("TERM"@ != "TERM_PROGRAM"@) by {
        assert("TERM"@.len() != "TERM_PROGRAM"@.len());
    }
    assert("TERM"@ != "LC_ALL"@) by {
        assert("TERM"@.len() != "LC_ALL"@.len());
    }
    assert("COLORTERM"@ != "TERM_PROGRAM"@) by {
        assert("COLORTERM"@.len() != "TERM_PROGRAM"@.len());
    }
    assert("COLORTERM"@ != "LANG"@) by {
        assert("COLORTERM"@.len() != "LANG"@.len());
    }
    assert("COLORTERM"@ != "LC_ALL"@) by {
        assert("COLORTERM"@.len() != "LC_ALL"@.len());
    }
    assert("TERM_PROGRAM"@ != "LANG"@) by {
        assert("TERM_PROGRAM"@.len() != "LANG"@.len());
    }
    assert("TERM_PROGRAM"@ != "LC_ALL"@) by {
        assert("TERM_PROGRAM"@.len() != "LC_ALL"@.len());
    }
    assert("LANG"@ != "LC_ALL"@) by {
        assert("LANG"@.len() != "LC_ALL"@.len());
    }
}

fn pair(name: &str, value: &str) -> (p: (String, String))
    ensures
        p.0@ == name@,
        p.1@ == value@,
{
    (String::from_str(name), String::from_str(value))
}

/// The command that starts the child of a new session: `program`, the
/// program every session runs, with `--resume <token>` when the request asks
/// to resume, the inherited environment followed by the terminal overrides,
/// and the requested working directory.
pub fn command_plan(
    program: &str,
    request: &CreatePtyRequest,
    inherited: Vec<(String, String)>,
) -> (p: CommandPlan)
    ensures
        p.program@ == program@,
        strings_view(p.args@) == resume_args(
            match request.resume_session {
                Some(t) => Some(t@),
                None => None,
            },
        ),
        pairs_view(p.env@) == pairs_view(inherited@) + env_overrides(),
        p.cwd@ == request.cwd@,
{
    let mut args: Vec<String> = Vec::new();
    match &request.resume_session {
        Some(t) => {
            args.push(String::from_str("--resume"));
            args.push(t.clone());
        },
        None => {},
    }
    let mut env = inherited;
    let ghost start = env@;
    env.push(pair("TERM", "xterm-256color"));
    env.push(pair("COLORTERM", "truecolor"));
    env.push(pair("TERM_PROGRAM", "hive"));
    env.push(pair("LANG", "en_US.UTF-8"));
    env.push(pair("LC_ALL", "en_US.UTF-8"));
    assert(pairs_view(env@) =~= pairs_view(start) + env_overrides());
    assert(strings_view(args@) =~= resume_args(
        match request.resume_session {
            Some(t) => Some(t@),
            None => None,
        },
    ));
    CommandPlan { program: String::from_str(program), args, env, cwd: request.cwd.clone() }
}

} // verus!
