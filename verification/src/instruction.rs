//! Building the system instruction: override precedence, the built-in
//! default texts, and the environment note appended to every instruction.

use vstd::prelude::*;
use vstd::string::*;
use crate::chars::{chars_contain_ci, chars_of, contains_ci};

verus! {

/// The candidate instruction texts, gathered once at startup: the generic and
/// mode-specific overrides given on the invocation itself, and the generic
/// and mode-specific overrides from the persistent configuration.
pub struct SystemOverrides {
    pub cli_generic: Option<String>,
    pub cli_single: Option<String>,
    pub cli_multiline: Option<String>,
    pub env_generic: Option<String>,
    pub env_single: Option<String>,
    pub env_multiline: Option<String>,
}

/// The built-in instruction for single-line mode.
pub open spec fn default_single_spec() -> Seq<char> {
    "You are a strict shell command generator. OUTPUT ONLY shell commands or shell syntax in plain text with no explanations, no commentary, and no additional prose. DO NOT output any markdown, code fences, backticks, or formatting of any kind. The entire response MUST be a single-line shell command with no extra text. Never add numbering, bullets, examples, or any text before or after the command. If you do NOT know the correct command, respond exactly with the following format and nothing else: (NOT ABLE TO ANSWER): <one-sentence reason> — the reason should be a single short sentence explaining why the command cannot be provided. Always respond only with the shell command(s) or the one-line failure phrase in the format above."@
}

/// The built-in instruction for multiline mode.
pub open spec fn default_multiline_spec() -> Seq<char> {
    "You are a strict shell command generator. OUTPUT ONLY shell commands or shell syntax in plain text with no explanations, no commentary, and no additional prose. DO NOT output any markdown, code fences, backticks, or formatting of any kind. Multi-line shell scripts are allowed when necessary. Never add numbering, bullets, examples, or any text before or after the command. If you do NOT know the correct command, respond exactly with the following format and nothing else: (NOT ABLE TO ANSWER): <one-sentence reason> — the reason should be a single short sentence explaining why the command cannot be provided. Always respond only with the shell command(s) or the one-line failure phrase in the format above."@
}

/// The text an override contributes: a candidate that is absent, or present
/// but empty, yields nothing and the next candidate is consulted.
pub open spec fn override_text(o: Option<String>) -> Option<Seq<char>> {
    match o {
        Some(s) => if s@.len() > 0 {
            Some(s@)
        } else {
            None
        },
        None => None,
    }
}

/// The instruction the builder owes: the highest-precedence non-empty
/// override, in the order invocation generic, invocation mode-specific,
/// configured mode-specific, configured generic, built-in default.
pub open spec fn selected_instruction_spec(o: SystemOverrides, multiline: bool) -> Seq<char> {
    match override_text(o.cli_generic) {
        Some(t) => t,
        None => if multiline {
            match override_text(o.cli_multiline) {
                Some(t) => t,
                None => match override_text(o.env_multiline) {
                    Some(t) => t,
                    None => match override_text(o.env_generic) {
                        Some(t) => t,
                        None => default_multiline_spec(),
                    },
                },
            }
        } else {
            match override_text(o.cli_single) {
                Some(t) => t,
                None => match override_text(o.env_single) {
                    Some(t) => t,
                    None => match override_text(o.env_generic) {
                        Some(t) => t,
                        None => default_single_spec(),
                    },
                },
            }
        },
    }
}

/// Selects the system instruction text by override precedence; an override
/// given as the empty text counts as not given.
pub fn select_instruction(o: &SystemOverrides, multiline: bool) -> (r: String)
    ensures
        r@ == selected_instruction_spec(*o, multiline),
{
    if let Some(s) = &o.cli_generic {
        if !s.as_str().is_empty() {
            return s.clone();
        }
    }
    if multiline {
        if let Some(s) = &o.cli_multiline {
            if !s.as_str().is_empty() {
                return s.clone();
            }
        }
        if let Some(s) = &o.env_multiline {
            if !s.as_str().is_empty() {
                return s.clone();
            }
        }
        if let Some(s) = &o.env_generic {
            if !s.as_str().is_empty() {
                return s.clone();
            }
        }
        String::from_str(
            "You are a strict shell command generator. OUTPUT ONLY shell commands or shell syntax in plain text with no explanations, no commentary, and no additional prose. DO NOT output any markdown, code fences, backticks, or formatting of any kind. Multi-line shell scripts are allowed when necessary. Never add numbering, bullets, examples, or any text before or after the command. If you do NOT know the correct command, respond exactly with the following format and nothing else: (NOT ABLE TO ANSWER): <one-sentence reason> — the reason should be a single short sentence explaining why the command cannot be provided. Always respond only with the shell command(s) or the one-line failure phrase in the format above.",
        )
    } else {
        if let Some(s) = &o.cli_single {
            if !s.as_str().is_empty() {
                return s.clone();
            }
        }
        if let Some(s) = &o.env_single {
            if !s.as_str().is_empty() {
                return s.clone();
            }
        }
        if let Some(s) = &o.env_generic {
            if !s.as_str().is_empty() {
                return s.clone();
            }
        }
        String::from_str(
            "You are a strict shell command generator. OUTPUT ONLY shell commands or shell syntax in plain text with no explanations, no commentary, and no additional prose. DO NOT output any markdown, code fences, backticks, or formatting of any kind. The entire response MUST be a single-line shell command with no extra text. Never add numbering, bullets, examples, or any text before or after the command. If you do NOT know the correct command, respond exactly with the following format and nothing else: (NOT ABLE TO ANSWER): <one-sentence reason> — the reason should be a single short sentence explaining why the command cannot be provided. Always respond only with the shell command(s) or the one-line failure phrase in the format above.",
        )
    }
}

/// The builder selects exactly the highest-precedence non-empty override:
/// the invocation-wide text beats everything; otherwise the mode-specific
/// invocation text, the mode-specific configured text, the generic
/// configured text, and only then the built-in default of the mode. An
/// absent candidate and one given as the empty text are passed over alike.
pub proof fn lemma_override_precedence(o: SystemOverrides, multiline: bool)
    ensures
        (match override_text(o.cli_generic) {
            Some(t) => selected_instruction_spec(o, multiline) == t,
            None => true,
        }),
        (match (override_text(o.cli_generic), override_text(o.cli_multiline)) {
            (None, Some(t)) => multiline ==> selected_instruction_spec(o, multiline) == t,
            _ => true,
        }),
        (match (override_text(o.cli_generic), override_text(o.cli_single)) {
            (None, Some(t)) => !multiline ==> selected_instruction_spec(o, multiline) == t,
            _ => true,
        }),
        (match (
            override_text(o.cli_generic),
            override_text(o.cli_multiline),
            override_text(o.env_multiline),
        ) {
            (None, None, Some(t)) => multiline ==> selected_instruction_spec(o, multiline) == t,
            _ => true,
        }),
        (match (
            override_text(o.cli_generic),
            override_text(o.cli_single),
            override_text(o.env_single),
        ) {
            (None, None, Some(t)) => !multiline ==> selected_instruction_spec(o, multiline) == t,
            _ => true,
        }),
        (match (
            override_text(o.cli_generic),
            override_text(o.cli_multiline),
            override_text(o.env_multiline),
            override_text(o.env_generic),
        ) {
            (None, None, None, Some(t)) => multiline ==> selected_instruction_spec(o, multiline)
                == t,
            _ => true,
        }),
        (match (
            override_text(o.cli_generic),
            override_text(o.cli_single),
            override_text(o.env_single),
            override_text(o.env_generic),
        ) {
            (None, None, None, Some(t)) => !multiline ==> selected_instruction_spec(o, multiline)
                == t,
            _ => true,
        }),
        (match (
            override_text(o.cli_generic),
            override_text(o.cli_multiline),
            override_text(o.env_multiline),
            override_text(o.env_generic),
        ) {
            (None, None, None, None) => multiline ==> selected_instruction_spec(o, multiline)
                == default_multiline_spec(),
            _ => true,
        }),
        (match (
            override_text(o.cli_generic),
            override_text(o.cli_single),
            override_text(o.env_single),
            override_text(o.env_generic),
        ) {
            (None, None, None, None) => !multiline ==> selected_instruction_spec(o, multiline)
                == default_single_spec(),
            _ => true,
        }),
{
}

/// The sentence that names the detected runtime environment.
pub open spec fn environment_note_spec(env: Seq<char>) -> Seq<char> {
    " Target environment: "@ + env
        + ". Ensure generated commands are compatible with this environment."@
}

/// The selected instruction with the environment note appended.
pub open spec fn composed_instruction_spec(
    o: SystemOverrides,
    multiline: bool,
    env: Seq<char>,
) -> Seq<char> {
    selected_instruction_spec(o, multiline) + environment_note_spec(env)
}

/// Composes the system instruction: the selected override followed by the
/// environment note, verbatim and exactly once.
pub fn compose_system_instruction(o: &SystemOverrides, multiline: bool, environment: &str) -> (r:
    String)
    ensures
        r@ == composed_instruction_spec(*o, multiline, environment@),
{
    let mut s = select_instruction(o, multiline);
    s.append(" Target environment: ");
    s.append(environment);
    s.append(". Ensure generated commands are compatible with this environment.");
    proof {
        assert(s@ =~= composed_instruction_spec(*o, multiline, environment@));
    }
    s
}

/// The environment note stands verbatim and exactly once at the end of every
/// composed instruction: the composition splits back into the selected
/// instruction and the note.
pub proof fn lemma_note_appended_once(o: SystemOverrides, multiline: bool, env: Seq<char>)
    ensures
        composed_instruction_spec(o, multiline, env).take(
            selected_instruction_spec(o, multiline).len() as int,
        ) == selected_instruction_spec(o, multiline),
        composed_instruction_spec(o, multiline, env).skip(
            selected_instruction_spec(o, multiline).len() as int,
        ) == environment_note_spec(env),
{
    let sel = selected_instruction_spec(o, multiline);
    let note = environment_note_spec(env);
    assert((sel + note).take(sel.len() as int) =~= sel);
    assert((sel + note).skip(sel.len() as int) =~= note);
}

/// Where the tool runs, as far as the instruction builder needs to know.
#[derive(PartialEq, Eq, Structural, Clone, Copy, Debug)]
pub enum Platform {
    MacOs,
    Windows,
    Linux,
    Unknown,
}

/// The label for a Linux distribution, from the text of its OS release
/// descriptor, inspected case-insensitively for name substrings.
pub open spec fn linux_label_spec(os_release: Seq<char>) -> Seq<char> {
    if contains_ci(os_release, "debian"@) || contains_ci(os_release, "ubuntu"@) {
        "linux (debian/ubuntu)"@
    } else if contains_ci(os_release, "fedora"@) {
        "linux (fedora)"@
    } else if contains_ci(os_release, "arch"@) {
        "linux (arch)"@
    } else {
        "linux"@
    }
}

/// The view of an optional text.
pub open spec fn opt_chars(o: Option<String>) -> Option<Seq<char>> {
    match o {
        Some(s) => Some(s@),
        None => None,
    }
}

/// The environment name for a platform, given the OS release text where one
/// could be read; its absence on Linux yields the generic label.
pub open spec fn environment_name_spec(p: Platform, os_release: Option<Seq<char>>) -> Seq<char> {
    match p {
        Platform::MacOs => "macos"@,
        Platform::Windows => "windows"@,
        Platform::Linux => match os_release {
            Some(s) => linux_label_spec(s),
            None => "linux"@,
        },
        Platform::Unknown => "unknown"@,
    }
}

/// Names the detected runtime environment.
pub fn environment_name(p: Platform, os_release: &Option<String>) -> (r: String)
    ensures
        r@ == environment_name_spec(p, opt_chars(*os_release)),
{
    match p {
        Platform::MacOs => String::from_str("macos"),
        Platform::Windows => String::from_str("windows"),
        Platform::Linux => match os_release {
            Some(s) => {
                let v = chars_of(s.as_str());
                if chars_contain_ci(&v, "debian") || chars_contain_ci(&v, "ubuntu") {
                    String::from_str("linux (debian/ubuntu)")
                } else if chars_contain_ci(&v, "fedora") {
                    String::from_str("linux (fedora)")
                } else if chars_contain_ci(&v, "arch") {
                    String::from_str("linux (arch)")
                } else {
                    String::from_str("linux")
                }
            },
            None => String::from_str("linux"),
        },
        Platform::Unknown => String::from_str("unknown"),
    }
}

} // verus!
