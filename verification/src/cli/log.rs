//! The transcript of a live session: where it is written, and what becomes of it.
//!
//! Paths stand here as they are written.
use crate::text;
use vstd::prelude::*;
use vstd::string::*;

verus! {

/// What is known of a path that is asked for.
#[derive(Debug, Clone, PartialEq, Eq)]
pub struct PathFacts {
    /// The directory that is missing, where the path lies in one that is not there.
    pub missing_parent: Option<String>,
    pub is_dir: bool,
    pub exists: bool,
}

/// Why a transcript cannot be written to a path.
pub open spec fn place_fault(missing_parent: Option<Seq<char>>) -> Option<Seq<char>> {
    match missing_parent {
        Some(parent) => Some("transcript directory does not exist: "@ + parent),
        None => None,
    }
}

pub fn validate_transcript_path(facts: &PathFacts) -> (r: Result<(), String>)
    ensures
        match place_fault(text::text_of(facts.missing_parent)) {
            Some(m) => r is Err && r->Err_0@ == m,
            None => r is Ok,
        },
{
    match &facts.missing_parent {
        Some(parent) => Err(text::cat("transcript directory does not exist: ", parent.as_str())),
        None => Ok(()),
    }
}

/// What a transcript file holds: one line of JSON, or the text, and a line's end.
pub fn transcript_content(json: bool, jsonl: &str, plain: &str) -> (r: String)
    ensures
        r@ == (if json {
            jsonl@
        } else {
            plain@
        }) + "\n"@,
{
    text::cat(
        if json {
            jsonl
        } else {
            plain
        },
        "\n",
    )
}

/// How the transcript of a session begins.
#[derive(Debug, Clone, PartialEq, Eq)]
pub enum LogOpening {
    /// No transcript is kept.
    NotKept,
    /// One is kept at the path that was asked for.
    Asked,
    /// The path is taken: ask whether it may be overwritten.
    Confirm,
    /// One is kept aside until the session ends.
    Aside,
    Refused(String),
}

/// Decides where the transcript goes. `path` is the one that was asked for, `prompt`
/// tells whether questions can be asked, and `overwrite` is the answer where one was given.
pub fn open_log(
    path: &Option<String>,
    facts: &PathFacts,
    json_mode: bool,
    prompt: bool,
    overwrite: Option<bool>,
) -> (r: LogOpening)
    ensures
        match path {
            None => r == if json_mode || !prompt {
                LogOpening::NotKept
            } else {
                LogOpening::Aside
            },
            Some(p) => match place_fault(text::text_of(facts.missing_parent)) {
                Some(m) => r matches LogOpening::Refused(e) && e@ == m,
                None => if facts.is_dir {
                    r matches LogOpening::Refused(e) && e@ == "transcript path is a directory: "@
                        + p@
                } else if facts.exists && prompt && overwrite is None {
                    r == LogOpening::Confirm
                } else if facts.exists && prompt && overwrite == Some(false) {
                    r matches LogOpening::Refused(e) && e@ == "aborted: "@ + p@
                        + " already exists"@
                } else {
                    r == LogOpening::Asked
                },
            },
        },
{
    match path {
        None => {
            if json_mode || !prompt {
                LogOpening::NotKept
            } else {
                LogOpening::Aside
            }
        },
        Some(p) => {
            if let Err(e) = validate_transcript_path(facts) {
                return LogOpening::Refused(e);
            }
            if facts.is_dir {
                return LogOpening::Refused(
                    text::cat("transcript path is a directory: ", p.as_str()),
                );
            }
            if facts.exists && prompt {
                match overwrite {
                    None => {
                        return LogOpening::Confirm;
                    },
                    Some(yes) => {
                        if !yes {
                            return LogOpening::Refused(
                                text::cat3("aborted: ", p.as_str(), " already exists"),
                            );
                        }
                    },
                }
            }
            LogOpening::Asked
        },
    }
}

/// The name of a transcript that is kept aside.
pub fn aside_name(tool: &str, stamp: &str, process: u32) -> (r: String)
    ensures
        r@ == tool@ + "-"@ + stamp@ + "-"@ + text::decimal(process as nat) + ".jsonl"@,
{
    let front = text::cat3(tool, "-", stamp);
    text::cat4(front.as_str(), "-", text::number(process as u64).as_str(), ".jsonl")
}

/// Where a transcript that was kept aside is offered to be saved.
pub fn suggested_path(tool: &str, stamp: &str) -> (r: String)
    ensures
        r@ == "./"@ + tool@ + "-"@ + stamp@ + ".jsonl"@,
{
    text::cat5("./", tool, "-", stamp, ".jsonl")
}

/// What becomes of a transcript when the session ends.
#[derive(Debug, Clone, PartialEq, Eq)]
pub enum LogEnding {
    /// It stays, and this is said.
    Kept(String),
    /// It is removed.
    Discarded,
    /// Ask where to save it.
    Ask,
}

/// The transcript of a session, as it stands.
#[derive(Debug, Clone, PartialEq, Eq)]
pub struct LiveSessionLog {
    pub path: String,
    pub suggested_path: String,
    pub explicit: bool,
    pub has_content: bool,
}

impl LiveSessionLog {
    /// Notes that a line was written.
    pub fn appended(&mut self)
        ensures
            final(self).has_content,
            final(self).path == old(self).path,
            final(self).suggested_path == old(self).suggested_path,
            final(self).explicit == old(self).explicit,
    {
        self.has_content = true;
    }

    pub fn finish(&self, json_mode: bool, prompt: bool) -> (r: LogEnding)
        ensures
            if self.explicit {
                r matches LogEnding::Kept(said) && said@ == "Saved transcript: "@ + self.path@ + (
                if self.has_content {
                    ""@
                } else {
                    " (no utterances)"@
                })
            } else if self.has_content && !json_mode && prompt {
                r == LogEnding::Ask
            } else {
                r == LogEnding::Discarded
            },
    {
        if self.explicit {
            let note = if self.has_content {
                ""
            } else {
                " (no utterances)"
            };
            return LogEnding::Kept(text::cat3("Saved transcript: ", self.path.as_str(), note));
        }
        if !self.has_content || json_mode || !prompt {
            return LogEnding::Discarded;
        }
        LogEnding::Ask
    }
}

pub open spec fn confirmed(line: Seq<char>) -> bool {
    let word = text::lowered(text::trimmed(line));
    word == "y"@ || word == "yes"@
}

/// Whether an answer allows a file to be overwritten.
pub fn overwrite_confirmed(line: &str) -> (r: bool)
    ensures
        r == confirmed(line@),
{
    let word = text::ascii_lowercase(text::trim(line).as_str());
    text::same(word.as_str(), "y") || text::same(word.as_str(), "yes")
}

/// The same word, upper or lower case.
pub open spec fn is_word(s: Seq<char>, word: Seq<char>) -> bool {
    text::lowered(s) == text::lowered(word)
}

/// Where an answer says to save a transcript; nowhere, where it declines.
pub open spec fn chosen_path(line: Seq<char>, suggested: Seq<char>) -> Option<Seq<char>> {
    let answer = text::trimmed(line);
    if answer.len() == 0 || is_word(answer, "y"@) || is_word(answer, "yes"@) {
        Some(suggested)
    } else if is_word(answer, "n"@) || is_word(answer, "no"@) {
        None
    } else {
        Some(answer)
    }
}

pub fn log_path_answer(line: &str, suggested: &str) -> (r: Option<String>)
    ensures
        text::text_of(r) == chosen_path(line@, suggested@),
{
    let answer = text::trim(line);
    if answer.as_str().is_empty() || text::same_ignoring_case(answer.as_str(), "y")
        || text::same_ignoring_case(answer.as_str(), "yes") {
        return Some(text::copy(suggested));
    }
    if text::same_ignoring_case(answer.as_str(), "n") || text::same_ignoring_case(
        answer.as_str(),
        "no",
    ) {
        return None;
    }
    Some(answer)
}

/// What to do with a path that was chosen for a transcript.
#[derive(Debug, Clone, PartialEq, Eq)]
pub enum SaveStep {
    /// Say this and ask for another path.
    Again(String),
    /// Ask for another path.
    AskAgain,
    /// The path is taken: ask whether it may be overwritten.
    Confirm,
    /// Move the transcript there and say this.
    Save(String),
}

pub fn save_step(target: &str, facts: &PathFacts, overwrite: Option<bool>) -> (r: SaveStep)
    ensures
        if facts.is_dir {
            r matches SaveStep::Again(m) && m@ == target@
                + " is a directory; choose a file path instead."@
        } else if facts.exists && overwrite is None {
            r == SaveStep::Confirm
        } else if facts.exists && overwrite == Some(false) {
            r == SaveStep::AskAgain
        } else if facts.missing_parent is Some {
            r matches SaveStep::Again(m) && m@ == "Failed to save transcript to "@ + target@
                + ": parent directory does not exist"@
        } else {
            r matches SaveStep::Save(m) && m@ == "Saved transcript: "@ + target@
        },
{
    if facts.is_dir {
        return SaveStep::Again(text::cat(target, " is a directory; choose a file path instead."));
    }
    if facts.exists {
        match overwrite {
            None => {
                return SaveStep::Confirm;
            },
            Some(yes) => {
                if !yes {
                    return SaveStep::AskAgain;
                }
            },
        }
    }
    if facts.missing_parent.is_some() {
        return SaveStep::Again(
            text::cat3(
                "Failed to save transcript to ",
                target,
                ": parent directory does not exist",
            ),
        );
    }
    SaveStep::Save(text::cat("Saved transcript: ", target))
}

/// Only a yes allows a file to be overwritten, in either case and with white space round it.
pub proof fn law_only_a_yes_overwrites(line: Seq<char>)
    ensures
        confirmed(line) <==> text::lowered(text::trimmed(line)) == "y"@ || text::lowered(
            text::trimmed(line),
        ) == "yes"@,
        text::trimmed(line).len() == 0 ==> !confirmed(line),
{
    reveal_strlit("y");
    reveal_strlit("yes");
    assert(text::lowered(text::trimmed(line)).len() == text::trimmed(line).len());
}

/// A blank answer or a yes takes the path that was suggested, a no takes none, and any other
/// answer is itself the path, trimmed.
pub proof fn law_answer_names_the_path(line: Seq<char>, suggested: Seq<char>)
    ensures
        text::trimmed(line).len() == 0 ==> chosen_path(line, suggested) == Some(suggested),
        confirmed(line) ==> chosen_path(line, suggested) == Some(suggested),
        text::lowered(text::trimmed(line)) == "n"@ || text::lowered(text::trimmed(line)) == "no"@
            ==> chosen_path(line, suggested) is None,
        text::trimmed(line).len() > 3 ==> chosen_path(line, suggested) == Some(text::trimmed(line)),
{
    reveal_strlit("y");
    reveal_strlit("yes");
    reveal_strlit("n");
    reveal_strlit("no");
    assert(text::lowered("y"@) =~= "y"@);
    assert(text::lowered("yes"@) =~= "yes"@);
    assert(text::lowered("n"@) =~= "n"@);
    assert(text::lowered("no"@) =~= "no"@);
    assert("y"@.len() == 1 && "yes"@.len() == 3 && "n"@.len() == 1 && "no"@.len() == 2);
    assert("y"@[0] == 'y' && "n"@[0] == 'n');
    assert(text::lowered(text::trimmed(line)).len() == text::trimmed(line).len());
}

} // verus!
