//! Inputs for capsule operations.

use vstd::prelude::*;
use vstd::string::*;

use crate::error::{Error, ErrorView};
use crate::links::{LinkView, Links};
use crate::paths::NativePath;
use crate::{error, git, links, text, validate};

verus! {

/// Commit identity used for checkpoints and integration commits.
///
/// Always explicit: the ambient Git configuration never decides who authored a
/// change made here.
#[derive(Debug, PartialEq, Eq)]
pub struct Author {
    /// Name recorded as both author and committer.
    pub name: String,
    /// Email recorded as both author and committer. Must contain `@`.
    pub email: String,
}

impl Author {
    /// Identity to record as both author and committer.
    pub fn new(name: &str, email: &str) -> (r: Author)
        ensures
            r.name@ == name@,
            r.email@ == email@,
    {
        Author { name: name.to_owned(), email: email.to_owned() }
    }

    /// Refuse an identity whose name or email is not usable.
    pub fn validate(&self) -> (r: std::result::Result<(), Error>)
        ensures
            error::outcome(r) == validate::author_check(self.name@, self.email@),
    {
        validate::validate_author(self.name.as_str(), self.email.as_str())
    }
}

impl Default for Author {
    fn default() -> (r: Author)
        ensures
            r.name@ == "Capsule"@,
            r.email@ == "capsule@localhost"@,
    {
        Author::new("Capsule", "capsule@localhost")
    }
}

/// Inputs for creating a capsule.
#[derive(Debug, PartialEq, Eq)]
pub struct CreateOptions {
    /// Any path inside the source Git repository.
    pub repository: NativePath,
    /// Revision to pin, resolved to an immutable commit before work starts.
    pub base: String,
    /// Optional human-facing description of the attempt.
    pub label: Option<String>,
    /// Opaque caller metadata, at most 32 entries. No key is privileged.
    pub links: Links,
}

impl CreateOptions {
    /// Options for a capsule based on the repository's current `HEAD`.
    pub fn new(repository: NativePath) -> (r: CreateOptions)
        ensures
            r.repository == repository,
            r.base@ == "HEAD"@,
            r.label is None,
            r.links@ == Seq::<LinkView>::empty(),
    {
        CreateOptions { repository, base: "HEAD".to_owned(), label: None, links: Links::new() }
    }

    /// Pin a different revision as the base.
    pub fn with_base(self, base: &str) -> (r: CreateOptions)
        ensures
            r == (CreateOptions { base: r.base, ..self }),
            r.base@ == base@,
    {
        let mut r = self;
        r.base = base.to_owned();
        r
    }

    /// Set the human-facing attempt label.
    pub fn with_label(self, label: &str) -> (r: CreateOptions)
        ensures
            r == (CreateOptions { label: r.label, ..self }),
            text::opt_view(r.label) == Some(label@),
    {
        let mut r = self;
        r.label = Some(label.to_owned());
        r
    }

    /// Replace the opaque caller links.
    pub fn with_links(self, links: Links) -> (r: CreateOptions)
        ensures
            r == (CreateOptions { links, ..self }),
    {
        let mut r = self;
        r.links = links;
        r
    }

    /// Refuse a label or links that are not usable.
    pub fn validate(&self) -> (r: std::result::Result<(), Error>)
        ensures
            error::outcome(r) == validate::create_check(text::opt_view(self.label), self.links@),
    {
        validate::validate_label_and_links(&self.label, &self.links)
    }
}

/// What collecting link arguments gives: links in key order, or the first key
/// given twice.
pub open spec fn first_duplicate(pairs: Seq<LinkView>) -> Option<Seq<char>>
    decreases pairs.len(),
{
    if pairs.len() == 0 {
        None
    } else {
        match first_duplicate(pairs.drop_last()) {
            Some(k) => Some(k),
            None => if exists|i: int|
                0 <= i < pairs.len() - 1 && (#[trigger] pairs[i]).0 == pairs.last().0 {
                Some(pairs.last().0)
            } else {
                None
            },
        }
    }
}

/// What pairs of texts hold.
pub open spec fn pair_views(pairs: Seq<(String, String)>) -> Seq<LinkView> {
    pairs.map_values(|p: (String, String)| (p.0@, p.1@))
}

proof fn lemma_first_duplicate_prefix(pairs: Seq<LinkView>, n: int)
    requires
        0 <= n <= pairs.len(),
        first_duplicate(pairs.take(n)) is Some,
    ensures
        first_duplicate(pairs) == first_duplicate(pairs.take(n)),
    decreases pairs.len(),
{
    if n == pairs.len() {
        assert(pairs.take(n) =~= pairs);
    } else {
        assert(pairs.drop_last().take(n) =~= pairs.take(n));
        lemma_first_duplicate_prefix(pairs.drop_last(), n);
    }
}

/// Collect link arguments, refusing a key that is given twice instead of
/// letting one value overwrite another.
pub fn collect_links(pairs: &Vec<(String, String)>) -> (r: std::result::Result<Links, Error>)
    ensures
        match first_duplicate(pair_views(pairs@)) {
            Some(k) => r matches Err(e) && e@ == ErrorView::InvalidInput(
                "duplicate link key: "@ + crate::digest::quoted_text_of(k),
            ),
            None => r matches Ok(found) && links::ascending(found@) && links::same_links(
                found@,
                pair_views(pairs@),
            ),
        },
{
    let ghost all = pair_views(pairs@);
    let mut found = Links::new();
    let mut i: usize = 0;
    proof {
        assert(all.take(0) =~= Seq::<LinkView>::empty());
    }
    while i < pairs.len()
        invariant
            i <= pairs.len(),
            all == pair_views(pairs@),
            first_duplicate(all.take(i as int)) is None,
            links::ascending(found@),
            links::same_links(found@, all.take(i as int)),
        decreases pairs.len() - i,
    {
        let ghost before = found@;
        let ghost p = all[i as int];
        let ghost next = all.take(i + 1);
        proof {
            assert(p == (pairs@[i as int].0@, pairs@[i as int].1@));
            assert(next.drop_last() =~= all.take(i as int));
            assert(next.last() == p);
        }
        let replaced = found.insert(pairs[i].0.as_str(), pairs[i].1.as_str());
        proof {
            if replaced {
                let k = choose|k: int| 0 <= k < before.len() && (#[trigger] before[k]).0 == p.0;
                assert(before.contains(before[k]));
                assert(all.take(i as int).contains(before[k]));
                let m = all.take(i as int).index_of(before[k]);
                assert(next[m].0 == next.last().0);
            } else {
                assert forall|m: int| 0 <= m < next.len() - 1 implies (#[trigger] next[m]).0
                    != next.last().0 by {
                    let q = next[m];
                    assert(all.take(i as int)[m] == q);
                    assert(all.take(i as int).contains(q));
                    assert(before.contains(q));
                    let k = before.index_of(q);
                    assert(before[k] == q);
                }
                assert forall|q: LinkView| #[trigger]
                    found@.contains(q) <==> next.contains(q) by {
                    if next.contains(q) {
                        let m = next.index_of(q);
                        assert(next[m] == q);
                        if m < i {
                            assert(all.take(i as int)[m] == q);
                            assert(all.take(i as int).contains(q));
                            assert(before.contains(q));
                            assert(next[m].0 != next.last().0);
                        }
                    }
                    if found@.contains(q) {
                        if q == p {
                            assert(next[i as int] == p);
                        } else {
                            assert(before.contains(q));
                            assert(all.take(i as int).contains(q));
                            let m = all.take(i as int).index_of(q);
                            assert(next[m] == q);
                        }
                    }
                }
            }
        }
        if replaced {
            proof {
                lemma_first_duplicate_prefix(all, i + 1);
            }
            return Err(
                Error::InvalidInput(
                    text::cat2(
                        "duplicate link key: ",
                        crate::digest::quoted_text(pairs[i].0.as_str()).as_str(),
                    ),
                ),
            );
        }
        i += 1;
    }
    proof {
        assert(all.take(all.len() as int) =~= all);
    }
    Ok(found)
}

/// Inputs for committing the workspace's current state as a checkpoint.
#[derive(Debug, PartialEq, Eq)]
pub struct CheckpointOptions {
    /// Message for the checkpoint commit.
    pub message: String,
    /// Identity to record on the commit.
    pub author: Author,
}

impl CheckpointOptions {
    /// Options for a checkpoint commit with an explicit identity.
    pub fn new(message: &str, author: Author) -> (r: CheckpointOptions)
        ensures
            r.message@ == message@,
            r.author == author,
    {
        CheckpointOptions { message: message.to_owned(), author }
    }

    /// What a check of these options says.
    pub open spec fn check(self) -> std::result::Result<(), ErrorView> {
        match validate::message_check(self.message@, "checkpoint message"@) {
            Err(e) => Err(e),
            Ok(_) => validate::author_check(self.author.name@, self.author.email@),
        }
    }

    /// Refuse a message or identity that is not usable.
    pub fn validate(&self) -> (r: std::result::Result<(), Error>)
        ensures
            error::outcome(r) == self.check(),
    {
        match validate::validate_message(self.message.as_str(), "checkpoint message") {
            Err(e) => Err(e),
            Ok(_) => self.author.validate(),
        }
    }
}

/// A span of time.
#[derive(Debug, Clone, Copy, PartialEq, Eq, Structural)]
pub struct TimeLimit {
    /// Whole seconds.
    pub seconds: u64,
    /// Nanoseconds on top.
    pub nanoseconds: u32,
}

/// How a verification record is produced.
#[derive(Debug, PartialEq, Eq)]
pub enum EvidenceInput {
    /// Run this argument vector in the capsule workspace and record what
    /// happened. The program is spawned directly, with no shell.
    Run {
        /// Program and arguments. The first element is the program.
        argv: Vec<String>,
        /// Optional summary. Defaults to the end of the captured output.
        summary: Option<String>,
        /// Kill the command and fail if it runs longer than this.
        timeout: Option<TimeLimit>,
    },
    /// Record a caller-supplied claim. Nothing is run and nothing vouched for.
    Claim {
        /// Exact command line the caller reports having run.
        command: String,
        /// Exit status the caller reports having observed.
        exit_code: i32,
        /// Optional bounded summary of what happened.
        summary: Option<String>,
    },
}

/// Whether a character needs no quoting in a command line.
pub open spec fn is_plain_char(c: char) -> bool {
    'a' <= c <= 'z' || 'A' <= c <= 'Z' || '0' <= c <= '9' || c == '-' || c == '_' || c == '.' || c
        == '/' || c == '=' || c == ':' || c == '+' || c == '@' || c == ','
}

/// Whether an argument needs no quoting.
pub open spec fn is_plain_argument(argument: Seq<char>) -> bool {
    argument.len() > 0 && forall|i: int|
        0 <= i < argument.len() ==> is_plain_char(#[trigger] argument[i])
}

/// One character between single quotes: a quote is closed over, escaped, and
/// opened again.
pub open spec fn quoted_char(c: char) -> Seq<char> {
    if c == '\'' {
        seq!['\'', '\\', '\'', '\'']
    } else {
        seq![c]
    }
}

/// The inside of an argument in single quotes.
pub open spec fn quoted_body(argument: Seq<char>) -> Seq<char>
    decreases argument.len(),
{
    if argument.len() == 0 {
        Seq::empty()
    } else {
        quoted_body(argument.drop_last()) + quoted_char(argument.last())
    }
}

/// An argument as a command line shows it.
pub open spec fn rendered_argument(argument: Seq<char>) -> Seq<char> {
    if is_plain_argument(argument) {
        argument
    } else {
        seq!['\''] + quoted_body(argument) + seq!['\'']
    }
}

/// A command line: its arguments, separated by spaces.
pub open spec fn rendered_line(argv: Seq<Seq<char>>) -> Seq<char>
    decreases argv.len(),
{
    if argv.len() == 0 {
        Seq::empty()
    } else if argv.len() == 1 {
        rendered_argument(argv[0])
    } else {
        rendered_argument(argv[0]) + seq![' '] + rendered_line(argv.skip(1))
    }
}

/// Reading one word of a command line the way a POSIX shell does: what it
/// holds, and what follows it.
pub open spec fn read_word(line: Seq<char>, quoted: bool, word: Seq<char>) -> (Seq<char>, Seq<char>)
    decreases line.len(),
{
    if line.len() == 0 {
        (word, line)
    } else if quoted {
        if line[0] == '\'' {
            read_word(line.skip(1), false, word)
        } else {
            read_word(line.skip(1), true, word.push(line[0]))
        }
    } else if line[0] == ' ' {
        (word, line)
    } else if line[0] == '\'' {
        read_word(line.skip(1), true, word)
    } else if line[0] == '\\' && line.len() >= 2 {
        read_word(line.skip(2), false, word.push(line[1]))
    } else {
        read_word(line.skip(1), false, word.push(line[0]))
    }
}

/// Reading a command line the way a POSIX shell splits it into words.
pub open spec fn shell_words(line: Seq<char>) -> Seq<Seq<char>>
    decreases line.len(),
{
    if line.len() == 0 {
        Seq::empty()
    } else {
        let (word, rest) = read_word(line, false, Seq::empty());
        if rest.len() == 0 || rest.len() >= line.len() {
            seq![word]
        } else {
            seq![word] + shell_words(rest.skip(1))
        }
    }
}

proof fn lemma_read_plain(argument: Seq<char>, rest: Seq<char>, word: Seq<char>)
    requires
        forall|i: int| 0 <= i < argument.len() ==> is_plain_char(#[trigger] argument[i]),
        rest.len() == 0 || rest[0] == ' ',
    ensures
        read_word(argument + rest, false, word) == (word + argument, rest),
    decreases argument.len(),
{
    let line = argument + rest;
    if argument.len() == 0 {
        assert(line =~= rest);
        assert(word + argument =~= word);
    } else {
        assert(is_plain_char(argument[0]));
        assert(line[0] == argument[0]);
        assert(line.skip(1) =~= argument.skip(1) + rest);
        assert forall|i: int| 0 <= i < argument.skip(1).len() implies is_plain_char(
            #[trigger] argument.skip(1)[i],
        ) by {
            assert(argument.skip(1)[i] == argument[i + 1]);
        }
        lemma_read_plain(argument.skip(1), rest, word.push(argument[0]));
        assert(word.push(argument[0]) + argument.skip(1) =~= word + argument);
    }
}

proof fn lemma_read_quoted(argument: Seq<char>, rest: Seq<char>, word: Seq<char>)
    requires
        rest.len() == 0 || rest[0] == ' ',
    ensures
        read_word(quoted_body(argument) + (seq!['\''] + rest), true, word) == (
            word + argument,
            rest,
        ),
    decreases argument.len(),
{
    let line = quoted_body(argument) + (seq!['\''] + rest);
    if argument.len() == 0 {
        assert(line =~= seq!['\''] + rest);
        assert(line[0] == '\'');
        assert(line.skip(1) =~= rest);
        assert(word + argument =~= word);
        assert(read_word(rest, false, word) == (word, rest));
    } else {
        let first = argument[0];
        let tail = argument.skip(1);
        let after = quoted_body(tail) + (seq!['\''] + rest);
        lemma_quoted_body_front(argument);
        assert(line =~= quoted_char(first) + after);
        lemma_read_quoted(tail, rest, word.push(first));
        assert(word.push(first) + tail =~= word + argument);
        if first == '\'' {
            assert(line[0] == '\'' && line[1] == '\\' && line[2] == '\'' && line[3] == '\'');
            assert(line.skip(1).skip(2).skip(1) =~= after);
            let l1 = line.skip(1);
            assert(l1[0] == '\\' && l1.len() >= 2 && l1[1] == '\'');
            let l2 = l1.skip(2);
            assert(l2[0] == '\'');
            assert(read_word(line, true, word) == read_word(l1, false, word));
            assert(read_word(l1, false, word) == read_word(l2, false, word.push('\'')));
            assert(read_word(l2, false, word.push('\'')) == read_word(
                l2.skip(1),
                true,
                word.push('\''),
            ));
        } else {
            assert(line[0] == first);
            assert(line.skip(1) =~= after);
        }
    }
}

proof fn lemma_quoted_body_front(argument: Seq<char>)
    requires
        argument.len() > 0,
    ensures
        quoted_body(argument) == quoted_char(argument[0]) + quoted_body(argument.skip(1)),
    decreases argument.len(),
{
    if argument.len() == 1 {
        assert(argument.drop_last() =~= Seq::<char>::empty());
        assert(argument.skip(1) =~= Seq::<char>::empty());
        assert(quoted_body(argument.drop_last()) =~= Seq::<char>::empty());
        assert(quoted_body(argument.skip(1)) =~= Seq::<char>::empty());
        assert(argument.last() == argument[0]);
        assert(quoted_body(argument) =~= quoted_char(argument[0]) + quoted_body(argument.skip(1)));
    } else {
        lemma_quoted_body_front(argument.drop_last());
        assert(argument.drop_last().skip(1) =~= argument.skip(1).drop_last());
        assert(argument.skip(1).last() == argument.last());
        assert(argument.drop_last()[0] == argument[0]);
        assert(quoted_body(argument) =~= quoted_char(argument[0]) + quoted_body(argument.skip(1)));
    }
}

proof fn lemma_read_argument(argument: Seq<char>, rest: Seq<char>)
    requires
        rest.len() == 0 || rest[0] == ' ',
    ensures
        read_word(rendered_argument(argument) + rest, false, Seq::empty()) == (argument, rest),
        rendered_argument(argument).len() > 0,
{
    let none = Seq::<char>::empty();
    if is_plain_argument(argument) {
        lemma_read_plain(argument, rest, none);
        assert(none + argument =~= argument);
    } else {
        let line = rendered_argument(argument) + rest;
        let inside = quoted_body(argument) + (seq!['\''] + rest);
        assert(line =~= seq!['\''] + inside);
        assert(line[0] == '\'');
        assert(line.skip(1) =~= inside);
        lemma_read_quoted(argument, rest, none);
        assert(none + argument =~= argument);
    }
}

/// A recorded command line keeps its argument boundaries: read the way a POSIX
/// shell splits it, it yields exactly the argument vector that was run.
pub proof fn law_command_line_keeps_argument_boundaries(argv: Seq<Seq<char>>)
    ensures
        shell_words(rendered_line(argv)) == argv,
    decreases argv.len(),
{
    let line = rendered_line(argv);
    if argv.len() == 0 {
        assert(argv =~= Seq::<Seq<char>>::empty());
    } else if argv.len() == 1 {
        lemma_read_argument(argv[0], Seq::empty());
        assert(line + Seq::<char>::empty() =~= line);
        assert(argv =~= seq![argv[0]]);
    } else {
        let more = rendered_line(argv.skip(1));
        let rest = seq![' '] + more;
        assert(line =~= rendered_argument(argv[0]) + rest);
        lemma_read_argument(argv[0], rest);
        assert(rest.skip(1) =~= more);
        law_command_line_keeps_argument_boundaries(argv.skip(1));
        assert(argv =~= seq![argv[0]] + argv.skip(1));
    }
}

fn plain_argument(argument: &str) -> (r: bool)
    ensures
        r == is_plain_argument(argument@),
{
    let chars = text::text_chars(argument);
    if chars.len() == 0 {
        return false;
    }
    let mut i: usize = 0;
    while i < chars.len()
        invariant
            chars@ == argument@,
            i <= chars.len(),
            forall|j: int| 0 <= j < i ==> is_plain_char(#[trigger] argument@[j]),
        decreases chars.len() - i,
    {
        let c = chars[i];
        if !(('a' <= c && c <= 'z') || ('A' <= c && c <= 'Z') || ('0' <= c && c <= '9') || c == '-'
            || c == '_' || c == '.' || c == '/' || c == '=' || c == ':' || c == '+' || c == '@' || c
            == ',') {
            assert(!is_plain_char(argument@[i as int]));
            return false;
        }
        i += 1;
    }
    true
}

/// Render one argument so a reader can tell where it starts and ends.
pub fn render_argument(argument: &str) -> (r: String)
    ensures
        r@ == rendered_argument(argument@),
{
    if plain_argument(argument) {
        return argument.to_owned();
    }
    let chars = text::text_chars(argument);
    let mut r = String::new();
    r.push('\'');
    let mut i: usize = 0;
    proof {
        assert(argument@.take(0) =~= Seq::<char>::empty());
        assert(r@ =~= seq!['\''] + quoted_body(argument@.take(0)));
    }
    while i < chars.len()
        invariant
            chars@ == argument@,
            i <= chars.len(),
            r@ == seq!['\''] + quoted_body(argument@.take(i as int)),
        decreases chars.len() - i,
    {
        let c = chars[i];
        proof {
            assert(argument@.take(i + 1).drop_last() =~= argument@.take(i as int));
            assert(argument@.take(i + 1).last() == c);
        }
        if c == '\'' {
            r.push('\'');
            r.push('\\');
            r.push('\'');
            r.push('\'');
        } else {
            r.push(c);
        }
        proof {
            assert(r@ =~= seq!['\''] + quoted_body(argument@.take(i + 1)));
        }
        i += 1;
    }
    proof {
        assert(argument@.take(argument@.len() as int) =~= argument@);
    }
    r.push('\'');
    proof {
        assert(r@ =~= rendered_argument(argument@));
    }
    r
}

fn render_line(argv: &Vec<String>, start: usize) -> (r: String)
    requires
        start <= argv@.len(),
    ensures
        r@ == rendered_line(git::texts(argv@).skip(start as int)),
    decreases argv@.len() - start,
{
    let ghost all = git::texts(argv@);
    let ghost rest = all.skip(start as int);
    if start == argv.len() {
        return String::new();
    }
    proof {
        assert(rest[0] == argv@[start as int]@);
        assert(rest.skip(1) =~= all.skip(start + 1));
    }
    let mut line = render_argument(argv[start].as_str());
    if start + 1 == argv.len() {
        return line;
    }
    let ghost first = line@;
    line.push(' ');
    proof {
        assert(line@ =~= first + seq![' ']);
    }
    line.append(render_line(argv, start + 1).as_str());
    line
}

impl EvidenceInput {
    /// Have the argument vector executed in the capsule workspace.
    pub fn run(argv: Vec<String>) -> (r: EvidenceInput)
        ensures
            r == (EvidenceInput::Run { argv, summary: None, timeout: None }),
    {
        EvidenceInput::Run { argv, summary: None, timeout: None }
    }

    /// Record that a command was run elsewhere and exited with `exit_code`.
    pub fn claim(command: &str, exit_code: i32) -> (r: EvidenceInput)
        ensures
            r matches EvidenceInput::Claim { command: c, exit_code: code, summary } && c@
                == command@ && code == exit_code && summary is None,
    {
        EvidenceInput::Claim { command: command.to_owned(), exit_code, summary: None }
    }

    /// The summary that was supplied, if any.
    pub open spec fn supplied_summary(self) -> Option<String> {
        match self {
            EvidenceInput::Run { summary, .. } => summary,
            EvidenceInput::Claim { summary, .. } => summary,
        }
    }

    /// Attach a bounded summary.
    pub fn with_summary(self, summary_text: &str) -> (r: EvidenceInput)
        ensures
            text::opt_view(r.supplied_summary()) == Some(summary_text@),
            match self {
                EvidenceInput::Run { argv, summary: _, timeout } => r == (EvidenceInput::Run {
                    argv,
                    summary: r.supplied_summary(),
                    timeout,
                }),
                EvidenceInput::Claim { command, exit_code, summary: _ } => r
                    == (EvidenceInput::Claim { command, exit_code, summary: r.supplied_summary() }),
            },
    {
        match self {
            EvidenceInput::Run { argv, summary: _, timeout } => EvidenceInput::Run {
                argv,
                summary: Some(summary_text.to_owned()),
                timeout,
            },
            EvidenceInput::Claim { command, exit_code, summary: _ } => EvidenceInput::Claim {
                command,
                exit_code,
                summary: Some(summary_text.to_owned()),
            },
        }
    }

    /// Kill an executed command that runs longer than this. Ignored for a claim.
    pub fn with_timeout(self, limit: TimeLimit) -> (r: EvidenceInput)
        ensures
            match self {
                EvidenceInput::Run { argv, summary, timeout: _ } => r == (EvidenceInput::Run {
                    argv,
                    summary,
                    timeout: Some(limit),
                }),
                EvidenceInput::Claim { .. } => r == self,
            },
    {
        match self {
            EvidenceInput::Run { argv, summary, timeout: _ } => EvidenceInput::Run {
                argv,
                summary,
                timeout: Some(limit),
            },
            EvidenceInput::Claim { command, exit_code, summary } => EvidenceInput::Claim {
                command,
                exit_code,
                summary,
            },
        }
    }

    /// The command line a record will carry.
    pub open spec fn command_line_of(self) -> Seq<char> {
        match self {
            EvidenceInput::Run { argv, .. } => rendered_line(git::texts(argv@)),
            EvidenceInput::Claim { command, .. } => command@,
        }
    }

    /// The command line this record will carry.
    ///
    /// For an executed run this renders the argument vector with POSIX
    /// quoting, so that an argument containing spaces stays one argument.
    pub fn command_line(&self) -> (r: String)
        ensures
            r@ == self.command_line_of(),
    {
        match self {
            EvidenceInput::Run { argv, .. } => {
                proof {
                    assert(git::texts(argv@).skip(0) =~= git::texts(argv@));
                }
                render_line(argv, 0)
            },
            EvidenceInput::Claim { command, .. } => command.clone(),
        }
    }
}

/// Requirements a capsule must satisfy before its result is sealed.
///
/// These are independent, not a ladder.
#[derive(Debug, Clone, Copy, PartialEq, Eq, Structural)]
pub struct CloseOptions {
    /// Refuse to seal unless evidence exists and every record's exit code is
    /// zero.
    pub require_successful_evidence: bool,
    /// Refuse to seal unless some successful record is bound to the patch
    /// being sealed.
    pub require_current_successful_evidence: bool,
    /// Refuse to seal unless an executed command passed on this patch.
    pub require_executed_evidence: bool,
}

impl CloseOptions {
    /// Seal with an explicit combination of requirements.
    pub fn requiring(
        require_successful_evidence: bool,
        require_current_successful_evidence: bool,
        require_executed_evidence: bool,
    ) -> (r: CloseOptions)
        ensures
            r == (CloseOptions {
                require_successful_evidence,
                require_current_successful_evidence,
                require_executed_evidence,
            }),
    {
        CloseOptions {
            require_successful_evidence,
            require_current_successful_evidence,
            require_executed_evidence,
        }
    }

    /// Seal only when an executed command passed against the exact sealed
    /// patch. Earlier failures do not matter.
    pub fn executed() -> (r: CloseOptions)
        ensures
            r == (CloseOptions {
                require_successful_evidence: false,
                require_current_successful_evidence: false,
                require_executed_evidence: true,
            }),
    {
        CloseOptions::requiring(false, false, true)
    }
}

impl Default for CloseOptions {
    fn default() -> (r: CloseOptions)
        ensures
            r == (CloseOptions {
                require_successful_evidence: false,
                require_current_successful_evidence: false,
                require_executed_evidence: false,
            }),
    {
        CloseOptions::requiring(false, false, false)
    }
}

/// Inputs for applying a sealed result to a target worktree.
#[derive(Debug, PartialEq, Eq)]
pub struct IntegrateOptions {
    /// Any path inside the destination worktree.
    pub target: NativePath,
    /// Commit subject. Defaults to the capsule label, then a generated subject.
    pub message: Option<String>,
    /// Identity to record on the integration commit.
    pub author: Author,
}

impl IntegrateOptions {
    /// Options for applying a sealed result to `target`.
    pub fn new(target: NativePath, author: Author) -> (r: IntegrateOptions)
        ensures
            r == (IntegrateOptions { target, message: None, author }),
    {
        IntegrateOptions { target, message: None, author }
    }

    /// Override the generated commit subject.
    pub fn with_message(self, message: &str) -> (r: IntegrateOptions)
        ensures
            r == (IntegrateOptions { message: r.message, ..self }),
            text::opt_view(r.message) == Some(message@),
    {
        let mut r = self;
        r.message = Some(message.to_owned());
        r
    }

    /// What a check of these options says.
    pub open spec fn check(self) -> std::result::Result<(), ErrorView> {
        match validate::author_check(self.author.name@, self.author.email@) {
            Err(e) => Err(e),
            Ok(_) => match self.message {
                Some(m) => validate::message_check(m@, "integration message"@),
                None => Ok(()),
            },
        }
    }

    /// Refuse an identity or message that is not usable.
    pub fn validate(&self) -> (r: std::result::Result<(), Error>)
        ensures
            error::outcome(r) == self.check(),
    {
        match self.author.validate() {
            Err(e) => {
                return Err(e);
            },
            Ok(_) => {},
        }
        match &self.message {
            Some(m) => validate::validate_message(m.as_str(), "integration message"),
            None => Ok(()),
        }
    }
}

} // verus!
