//! Splitting a command string into a program and its arguments.

use vstd::prelude::*;
use vstd::string::*;

verus! {

/// Whether `c` separates the words of a command: the code points that
/// Unicode gives the property `White_Space`.
pub open spec fn is_space(c: char) -> bool {
    let n = c as u32;
    ||| 0x09 <= n <= 0x0D
    ||| n == 0x20
    ||| n == 0x85
    ||| n == 0xA0
    ||| n == 0x1680
    ||| 0x2000 <= n <= 0x200A
    ||| n == 0x2028
    ||| n == 0x2029
    ||| n == 0x202F
    ||| n == 0x205F
    ||| n == 0x3000
}

/// Executable form of [`is_space`].
pub fn char_is_space(c: char) -> (b: bool)
    ensures
        b == is_space(c),
{
    let n: u32 = c as u32;
    (0x09 <= n && n <= 0x0D) || n == 0x20 || n == 0x85 || n == 0xA0 || n == 0x1680 || (0x2000 <= n
        && n <= 0x200A) || n == 0x2028 || n == 0x2029 || n == 0x202F || n == 0x205F || n == 0x3000
}

/// The words of `s`: its maximal runs of characters that are not spaces, in
/// the order in which they stand in `s`.
pub open spec fn words(s: Seq<char>) -> Seq<Seq<char>>
    decreases s.len(),
{
    if s.len() == 0 {
        Seq::empty()
    } else if is_space(s.last()) {
        words(s.drop_last())
    } else if s.len() > 1 && !is_space(s[s.len() - 2]) {
        let before = words(s.drop_last());
        before.drop_last().push(before.last().push(s.last()))
    } else {
        words(s.drop_last()).push(seq![s.last()])
    }
}

/// The text of each string of `v`, in order.
pub open spec fn texts(v: Seq<String>) -> Seq<Seq<char>> {
    Seq::new(v.len(), |i: int| v[i]@)
}

/// Splits a command at its spaces. Nothing is quoted or escaped: a word
/// cannot hold a space.
pub fn split_command(command: &str) -> (tokens: Vec<String>)
    ensures
        texts(tokens@) == words(command@),
{
    let n: usize = command.unicode_len();
    let mut tokens: Vec<String> = Vec::new();
    let mut start: usize = 0;
    let mut inside: bool = false;
    let mut i: usize = 0;
    assert(command@.take(0) =~= Seq::<char>::empty());
    assert(texts(tokens@) =~= words(command@.take(0)));
    while i < n
        invariant
            n == command@.len(),
            i <= n,
            inside ==> start < i,
            inside ==> words(command@.take(i as int)) == texts(tokens@).push(
                command@.subrange(start as int, i as int),
            ),
            !inside ==> words(command@.take(i as int)) == texts(tokens@),
            i > 0 ==> (inside <==> !is_space(command@[i - 1])),
        decreases n - i,
    {
        let c: char = command.get_char(i);
        let space: bool = char_is_space(c);
        proof {
            let next = command@.take(i + 1);
            assert(next.drop_last() =~= command@.take(i as int));
            assert(next.last() == c);
            if !space && inside {
                assert(command@.subrange(start as int, i as int).push(c) =~= command@.subrange(
                    start as int,
                    i + 1,
                ));
                let before = words(command@.take(i as int));
                assert(before.drop_last() =~= texts(tokens@));
            }
            if !space && !inside {
                assert(seq![c] =~= command@.subrange(i as int, i + 1));
            }
        }
        if space {
            if inside {
                let ghost done = texts(tokens@);
                let word: String = command.substring_char(start, i).to_owned();
                tokens.push(word);
                assert(texts(tokens@) =~= done.push(word@));
                inside = false;
            }
        } else if !inside {
            start = i;
            inside = true;
        }
        i += 1;
    }
    assert(command@.take(n as int) =~= command@);
    if inside {
        let ghost done = texts(tokens@);
        let word: String = command.substring_char(start, n).to_owned();
        tokens.push(word);
        assert(texts(tokens@) =~= done.push(word@));
    }
    tokens
}

/// A command ready to be started: the program to look up and the arguments
/// handed to it.
#[derive(Debug, Clone, PartialEq, Eq)]
pub struct Invocation {
    pub program: String,
    pub arguments: Vec<String>,
}

impl Invocation {
    /// Whether this invocation is made of the words `w`: the first names the
    /// program, the others are its arguments in order.
    pub open spec fn made_of(&self, w: Seq<Seq<char>>) -> bool {
        &&& w.len() > 0
        &&& self.program@ == w[0]
        &&& texts(self.arguments@) == w.skip(1)
    }
}

/// Whether a command names a program at all: it holds a character that is no
/// space.
pub open spec fn names_program(command: Seq<char>) -> bool {
    words(command).len() > 0
}

/// Splits a command into the program and its arguments. There is nothing to
/// start exactly when the command holds no word.
pub fn parse_invocation(command: &str) -> (r: Option<Invocation>)
    ensures
        r is Some <==> names_program(command@),
        r is Some ==> r->Some_0.made_of(words(command@)),
{
    let mut tokens: Vec<String> = split_command(command);
    if tokens.len() == 0 {
        None
    } else {
        let ghost all = tokens@;
        let program: String = tokens.remove(0);
        assert(texts(tokens@) =~= texts(all).skip(1));
        Some(Invocation { program, arguments: tokens })
    }
}

/// What became of one attempt to run a command, as the caller saw it.
#[derive(Debug, Clone, PartialEq, Eq)]
pub enum RunReport {
    /// The program could not be found or executed.
    NotStarted,
    /// The process ran and ended; `status` is the system's own rendering of
    /// its exit status.
    Exited { success: bool, status: String },
}

/// Why a run of the command counts as failed.
#[derive(Debug, Clone, PartialEq, Eq)]
pub enum CommandError {
    /// The program could not be started.
    Start,
    /// The process ended with a status other than success.
    Exit { status: String },
}

/// The verdict on a report: only a process that ran and ended with success is
/// a success, and an exit error keeps the status it was reported with.
pub open spec fn verdict(report: RunReport) -> Result<(), CommandError> {
    match report {
        RunReport::NotStarted => Err(CommandError::Start),
        RunReport::Exited { success, status } => if success {
            Ok(())
        } else {
            Err(CommandError::Exit { status })
        },
    }
}

/// Judges a finished run.
pub fn judge(report: RunReport) -> (r: Result<(), CommandError>)
    ensures
        r == verdict(report),
{
    match report {
        RunReport::NotStarted => Err(CommandError::Start),
        RunReport::Exited { success, status } => {
            if success {
                Ok(())
            } else {
                Err(CommandError::Exit { status })
            }
        },
    }
}

impl CommandError {
    /// The text shown for this error.
    pub open spec fn text(&self) -> Seq<char> {
        match self {
            CommandError::Start => "Could not start command"@,
            CommandError::Exit { status } => "Status value: "@ + status@,
        }
    }

    /// Renders the error for a reader.
    pub fn message(&self) -> (m: String)
        ensures
            m@ == self.text(),
    {
        match self {
            CommandError::Start => "Could not start command".to_owned(),
            CommandError::Exit { status } => {
                let mut m: String = "Status value: ".to_owned();
                m.append(status.as_str());
                m
            },
        }
    }
}

/// Whether `s` holds no space.
pub open spec fn solid(s: Seq<char>) -> bool {
    forall|i: int| 0 <= i < s.len() ==> !is_space(#[trigger] s[i])
}

/// Whether nothing but spaces stands in `s`.
pub open spec fn blank(s: Seq<char>) -> bool {
    forall|i: int| 0 <= i < s.len() ==> is_space(#[trigger] s[i])
}

/// Whether no word reaches from the end of `a` into the start of `b`: one of
/// them is empty, or a space stands on one side of the joint.
pub open spec fn parts_at_space(a: Seq<char>, b: Seq<char>) -> bool {
    a.len() == 0 || b.len() == 0 || is_space(a.last()) || is_space(b[0])
}

/// A text that ends in a character that is no space has a last word, and
/// that word ends in this character.
pub proof fn lemma_last_word(s: Seq<char>)
    requires
        s.len() > 0,
        !is_space(s.last()),
    ensures
        words(s).len() > 0,
        words(s).last().len() > 0,
        words(s).last().last() == s.last(),
    decreases s.len(),
{
    if s.len() > 1 && !is_space(s[s.len() - 2]) {
        lemma_last_word(s.drop_last());
    }
}

/// Every word is non-empty and holds no space.
pub proof fn lemma_words_are_solid(s: Seq<char>)
    ensures
        forall|i: int|
            0 <= i < words(s).len() ==> (#[trigger] words(s)[i]).len() > 0 && solid(words(s)[i]),
    decreases s.len(),
{
    if s.len() > 0 {
        lemma_words_are_solid(s.drop_last());
        if !is_space(s.last()) && s.len() > 1 && !is_space(s[s.len() - 2]) {
            lemma_last_word(s.drop_last());
        }
    }
}

/// A text has no word exactly when it holds nothing but spaces.
pub proof fn lemma_no_word_iff_blank(s: Seq<char>)
    ensures
        words(s).len() == 0 <==> blank(s),
    decreases s.len(),
{
    if s.len() > 0 {
        let init = s.drop_last();
        lemma_no_word_iff_blank(init);
        if is_space(s.last()) {
            if blank(init) {
                assert forall|i: int| 0 <= i < s.len() implies is_space(#[trigger] s[i]) by {
                    if i < init.len() {
                        assert(s[i] == init[i]);
                    }
                }
            } else {
                let k = choose|k: int| 0 <= k < init.len() && !is_space(#[trigger] init[k]);
                assert(!is_space(s[k]));
            }
        } else {
            lemma_last_word(s);
            assert(!is_space(s[s.len() - 1]));
        }
    }
}

/// A non-empty text without a space is one word.
pub proof fn lemma_single_word(w: Seq<char>)
    requires
        w.len() > 0,
        solid(w),
    ensures
        words(w) == seq![w],
    decreases w.len(),
{
    let init = w.drop_last();
    if w.len() > 1 {
        assert(!is_space(w[w.len() - 2]));
        assert(!is_space(w[w.len() - 1]));
        assert forall|i: int| 0 <= i < init.len() implies !is_space(#[trigger] init[i]) by {
            assert(init[i] == w[i]);
        }
        lemma_single_word(init);
        assert(init.push(w.last()) =~= w);
        assert(words(w) =~= seq![w]);
    } else {
        assert(!is_space(w[0]));
        assert(seq![w.last()] =~= w);
        assert(words(init) =~= Seq::<Seq<char>>::empty());
        assert(words(w) =~= seq![w]);
    }
}

/// Where two texts are joined at a space, the words of the whole are the
/// words of the first followed by the words of the second.
pub proof fn lemma_words_of_parts(a: Seq<char>, b: Seq<char>)
    requires
        parts_at_space(a, b),
    ensures
        words(a + b) == words(a) + words(b),
    decreases b.len(),
{
    let s = a + b;
    if b.len() == 0 {
        assert(s =~= a);
        assert(words(a) + words(b) =~= words(a));
    } else {
        let rest = b.drop_last();
        let c = b.last();
        assert(s.drop_last() =~= a + rest);
        assert(s.last() == c);
        if rest.len() > 0 {
            assert(rest[0] == b[0]);
            assert(s[s.len() - 2] == b[b.len() - 2]);
        } else if a.len() > 0 {
            assert(s[s.len() - 2] == a.last());
        }
        lemma_words_of_parts(a, rest);
        if is_space(c) {
        } else if s.len() > 1 && !is_space(s[s.len() - 2]) {
            lemma_last_word(rest);
            let joined = words(a) + words(rest);
            assert(joined.drop_last() =~= words(a) + words(rest).drop_last());
            assert(joined.last() == words(rest).last());
            assert(words(s) =~= words(a) + words(b));
        } else {
            assert(words(s) =~= words(a) + words(b));
        }
    }
}

} // verus!
