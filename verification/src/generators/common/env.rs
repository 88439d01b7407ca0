//! Start-up checks for the environment variables a service declares: a
//! declared default is set when the variable is absent, otherwise the
//! server refuses to start.

use vstd::prelude::*;

use crate::ir::{EnvVar, Service};
use crate::text::{concat_all, lemma_concat_all_step, lemma_take_full, replace_char, replace_char_seq};

verus! {

/// A default value made safe inside a double-quoted string literal:
/// backslashes doubled, then quotes escaped.
pub open spec fn spec_escape_default(s: Seq<char>) -> Seq<char> {
    replace_char_seq(replace_char_seq(s, '\\', "\\\\"@), '"', "\\\""@)
}

pub fn escape_default(s: &str) -> (r: String)
    ensures
        r@ == spec_escape_default(s@),
{
    let a = replace_char(s, '\\', "\\\\");
    replace_char(a.as_str(), '"', "\\\"")
}

/// The three target languages of the start-up checks.
pub enum EnvTarget {
    Rust,
    Go,
    Ts,
}

pub open spec fn spec_env_check(target: EnvTarget, e: EnvVar) -> Seq<char> {
    let name = e.name@;
    match target {
        EnvTarget::Rust => match e.default {
            Some(d) => "    if env::var(\""@ + name + "\").is_err() {\n        env::set_var(\""@
                + name + "\", \""@ + spec_escape_default(d@) + "\");\n    }\n"@,
            None => "    if env::var(\""@ + name
                + "\").is_err() {\n        eprintln!(\"Missing env: "@ + name
                + "\");\n        return;\n    }\n"@,
        },
        EnvTarget::Go => match e.default {
            Some(d) => "    if os.Getenv(\""@ + name + "\") == \"\" {\n        os.Setenv(\""@ + name
                + "\", \""@ + spec_escape_default(d@) + "\")\n    }\n"@,
            None => "    if os.Getenv(\""@ + name
                + "\") == \"\" {\n        fmt.Println(\"Missing env: "@ + name
                + "\")\n        return\n    }\n"@,
        },
        EnvTarget::Ts => match e.default {
            Some(d) => "if (!process.env[\""@ + name + "\"]) {\n  process.env[\""@ + name
                + "\"] = \""@ + spec_escape_default(d@) + "\";\n}\n"@,
            None => "if (!process.env[\""@ + name + "\"]) {\n  console.error(\"Missing env: "@
                + name + "\");\n  process.exit(1);\n}\n"@,
        },
    }
}

pub open spec fn spec_env_checks(target: EnvTarget, envs: Seq<EnvVar>) -> Seq<char> {
    concat_all(envs, |e: EnvVar| spec_env_check(target, e))
}

fn render_env_check(target: &EnvTarget, e: &EnvVar, out: &mut String)
    ensures
        final(out)@ == old(out)@ + spec_env_check(*target, *e),
{
    let name = e.name.as_str();
    match target {
        EnvTarget::Rust => match &e.default {
            Some(d) => {
                let esc = escape_default(d.as_str());
                out.append("    if env::var(\"");
                out.append(name);
                out.append("\").is_err() {\n        env::set_var(\"");
                out.append(name);
                out.append("\", \"");
                out.append(esc.as_str());
                out.append("\");\n    }\n");
            },
            None => {
                out.append("    if env::var(\"");
                out.append(name);
                out.append("\").is_err() {\n        eprintln!(\"Missing env: ");
                out.append(name);
                out.append("\");\n        return;\n    }\n");
            },
        },
        EnvTarget::Go => match &e.default {
            Some(d) => {
                let esc = escape_default(d.as_str());
                out.append("    if os.Getenv(\"");
                out.append(name);
                out.append("\") == \"\" {\n        os.Setenv(\"");
                out.append(name);
                out.append("\", \"");
                out.append(esc.as_str());
                out.append("\")\n    }\n");
            },
            None => {
                out.append("    if os.Getenv(\"");
                out.append(name);
                out.append("\") == \"\" {\n        fmt.Println(\"Missing env: ");
                out.append(name);
                out.append("\")\n        return\n    }\n");
            },
        },
        EnvTarget::Ts => match &e.default {
            Some(d) => {
                let esc = escape_default(d.as_str());
                out.append("if (!process.env[\"");
                out.append(name);
                out.append("\"]) {\n  process.env[\"");
                out.append(name);
                out.append("\"] = \"");
                out.append(esc.as_str());
                out.append("\";\n}\n");
            },
            None => {
                out.append("if (!process.env[\"");
                out.append(name);
                out.append("\"]) {\n  console.error(\"Missing env: ");
                out.append(name);
                out.append("\");\n  process.exit(1);\n}\n");
            },
        },
    }
}

fn render_env_checks(target: EnvTarget, envs: &Vec<EnvVar>) -> (r: String)
    ensures
        r@ == spec_env_checks(target, envs@),
{
    let mut out = String::new();
    let mut i: usize = 0;
    while i < envs.len()
        invariant
            0 <= i <= envs@.len(),
            out@ == spec_env_checks(target, envs@.take(i as int)),
        decreases envs@.len() - i,
    {
        proof {
            lemma_concat_all_step(envs@, i as int, |e: EnvVar| spec_env_check(target, e));
        }
        render_env_check(&target, &envs[i], &mut out);
        i += 1;
    }
    proof {
        lemma_take_full(envs@);
    }
    out
}

pub fn render_env_checks_rust(service: &Service) -> (r: String)
    ensures
        r@ == spec_env_checks(EnvTarget::Rust, service.common.env@),
{
    render_env_checks(EnvTarget::Rust, &service.common.env)
}

pub fn render_env_checks_go(service: &Service) -> (r: String)
    ensures
        r@ == spec_env_checks(EnvTarget::Go, service.common.env@),
{
    render_env_checks(EnvTarget::Go, &service.common.env)
}

/// The TypeScript checks end with a blank line when there is any.
pub open spec fn spec_env_checks_ts(envs: Seq<EnvVar>) -> Seq<char> {
    if envs.len() == 0 {
        Seq::empty()
    } else {
        spec_env_checks(EnvTarget::Ts, envs) + "\n"@
    }
}

pub fn render_env_checks_ts(service: &Service) -> (r: String)
    ensures
        r@ == spec_env_checks_ts(service.common.env@),
{
    if service.common.env.len() == 0 {
        return String::new();
    }
    let mut out = render_env_checks(EnvTarget::Ts, &service.common.env);
    out.append("\n");
    out
}

} // verus!
