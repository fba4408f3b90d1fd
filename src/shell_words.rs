//! How a POSIX shell splits a command line into words, and the proof that
//! escaped arguments come back unchanged.
use vstd::prelude::*;
use crate::command::{escape_arg, escape_args, is_escaped_in_quotes, is_special, needs_quoting, quoted_body};

verus! {

/// A POSIX shell splitting a command line into words: the words so far, the
/// current word, whether a word has begun, and the quoting mode (0 plain,
/// 1 inside double quotes, 2 after a backslash inside double quotes, 3 inside
/// single quotes, 4 after a backslash outside quotes).
pub struct LexState {
    pub words: Seq<Seq<char>>,
    pub cur: Seq<char>,
    pub started: bool,
    pub mode: nat,
}

/// Blanks that separate words outside quotes.
pub open spec fn is_separator(c: char) -> bool {
    c == ' ' || c == '\t' || c == '\n'
}

/// How the shell reads one character.
pub open spec fn lex_step(st: LexState, c: char) -> LexState {
    if st.mode == 0 {
        if is_separator(c) {
            if st.started {
                LexState { words: st.words.push(st.cur), cur: Seq::empty(), started: false, mode: 0 }
            } else {
                st
            }
        } else if c == '"' {
            LexState { started: true, mode: 1, ..st }
        } else if c == '\'' {
            LexState { started: true, mode: 3, ..st }
        } else if c == '\\' {
            LexState { started: true, mode: 4, ..st }
        } else {
            LexState { cur: st.cur.push(c), started: true, ..st }
        }
    } else if st.mode == 1 {
        if c == '"' {
            LexState { mode: 0, ..st }
        } else if c == '\\' {
            LexState { mode: 2, ..st }
        } else {
            LexState { cur: st.cur.push(c), ..st }
        }
    } else if st.mode == 2 {
        if is_escaped_in_quotes(c) {
            LexState { cur: st.cur.push(c), mode: 1, ..st }
        } else if c == '\n' {
            LexState { mode: 1, ..st }
        } else {
            LexState { cur: st.cur.push('\\').push(c), mode: 1, ..st }
        }
    } else if st.mode == 3 {
        if c == '\'' {
            LexState { mode: 0, ..st }
        } else {
            LexState { cur: st.cur.push(c), ..st }
        }
    } else {
        if c == '\n' {
            LexState { mode: 0, ..st }
        } else {
            LexState { cur: st.cur.push(c), mode: 0, ..st }
        }
    }
}

/// The state after reading `s` from `st`.
pub open spec fn lex(st: LexState, s: Seq<char>) -> LexState
    decreases s.len(),
{
    if s.len() == 0 {
        st
    } else {
        lex_step(lex(st, s.drop_last()), s.last())
    }
}

/// Nothing read yet.
pub open spec fn lex_start() -> LexState {
    LexState { words: Seq::empty(), cur: Seq::empty(), started: false, mode: 0 }
}

/// The words a POSIX shell finds in a command line.
pub open spec fn shell_words(s: Seq<char>) -> Seq<Seq<char>> {
    let st = lex(lex_start(), s);
    if st.started {
        st.words.push(st.cur)
    } else {
        st.words
    }
}

proof fn lemma_lex_append(st: LexState, a: Seq<char>, b: Seq<char>)
    ensures
        lex(st, a + b) == lex(lex(st, a), b),
    decreases b.len(),
{
    if b.len() == 0 {
        assert(a + b =~= a);
    } else {
        assert((a + b).drop_last() =~= a + b.drop_last());
        assert((a + b).last() == b.last());
        lemma_lex_append(st, a, b.drop_last());
    }
}

proof fn lemma_lex_two(st: LexState, x: char, y: char)
    ensures
        lex(st, seq![x, y]) == lex_step(lex_step(st, x), y),
{
    assert(seq![x, y].drop_last() =~= seq![x]);
    assert(seq![x].drop_last() =~= Seq::<char>::empty());
    assert(lex(st, Seq::<char>::empty()) == st);
    assert(lex(st, seq![x]) == lex_step(lex(st, Seq::<char>::empty()), x));
    assert(lex(st, seq![x, y]) == lex_step(lex(st, seq![x]), y));
}

proof fn lemma_lex_one(st: LexState, x: char)
    ensures
        lex(st, seq![x]) == lex_step(st, x),
{
    assert(seq![x].drop_last() =~= Seq::<char>::empty());
    assert(lex(st, Seq::<char>::empty()) == st);
    assert(lex(st, seq![x]) == lex_step(lex(st, Seq::<char>::empty()), x));
}

proof fn lemma_lex_plain(st: LexState, s: Seq<char>)
    requires
        st.mode == 0,
        forall|i: int| 0 <= i < s.len() ==> !is_special(#[trigger] s[i]),
    ensures
        lex(st, s) == (LexState { cur: st.cur + s, started: st.started || s.len() > 0, ..st }),
    decreases s.len(),
{
    if s.len() == 0 {
        assert(st.cur + s =~= st.cur);
    } else {
        let d = s.drop_last();
        assert forall|i: int| 0 <= i < d.len() implies !is_special(#[trigger] d[i]) by {
            assert(d[i] == s[i]);
        }
        lemma_lex_plain(st, d);
        assert(!is_special(s[s.len() - 1]));
        assert(st.cur + d.push(s.last()) =~= (st.cur + d).push(s.last()));
        assert(d.push(s.last()) =~= s);
    }
}

proof fn lemma_lex_quoted(st: LexState, s: Seq<char>)
    requires
        st.mode == 1,
    ensures
        lex(st, quoted_body(s)) == (LexState { cur: st.cur + s, ..st }),
    decreases s.len(),
{
    if s.len() == 0 {
        assert(st.cur + s =~= st.cur);
        assert(quoted_body(s) =~= Seq::<char>::empty());
    } else {
        let d = s.drop_last();
        let c = s.last();
        lemma_lex_quoted(st, d);
        let mid = LexState { cur: st.cur + d, ..st };
        let piece = if is_escaped_in_quotes(c) { seq!['\\', c] } else { seq![c] };
        assert(quoted_body(s) == quoted_body(d) + piece);
        lemma_lex_append(st, quoted_body(d), piece);
        if is_escaped_in_quotes(c) {
            lemma_lex_two(mid, '\\', c);
        } else {
            lemma_lex_one(mid, c);
        }
        assert((st.cur + d).push(c) =~= st.cur + s);
    }
}

proof fn lemma_lex_arg(st: LexState, a: Seq<char>)
    requires
        st.mode == 0,
        !st.started,
        st.cur == Seq::<char>::empty(),
    ensures
        lex(st, escape_arg(a)) == (LexState { words: st.words, cur: a, started: true, mode: 0 }),
{
    if a.len() == 0 {
        lemma_lex_two(st, '"', '"');
        assert(a =~= Seq::<char>::empty());
    } else if !needs_quoting(a) {
        assert forall|i: int| 0 <= i < a.len() implies !is_special(#[trigger] a[i]) by {
            if is_special(a[i]) {
                assert(needs_quoting(a));
            }
        }
        lemma_lex_plain(st, a);
        assert(st.cur + a =~= a);
    } else {
        let open_q = LexState { started: true, mode: 1, ..st };
        lemma_lex_one(st, '"');
        lemma_lex_append(st, seq!['"'], quoted_body(a));
        lemma_lex_quoted(open_q, a);
        let inside = LexState { cur: st.cur + a, ..open_q };
        lemma_lex_append(st, seq!['"'] + quoted_body(a), seq!['"']);
        lemma_lex_one(inside, '"');
        assert(st.cur + a =~= a);
    }
}

proof fn lemma_lex_args(args: Seq<Seq<char>>)
    requires
        args.len() >= 1,
    ensures
        lex(lex_start(), escape_args(args)) == (LexState {
            words: args.drop_last(),
            cur: args.last(),
            started: true,
            mode: 0,
        }),
    decreases args.len(),
{
    if args.len() == 1 {
        lemma_lex_arg(lex_start(), args[0]);
        assert(args.drop_last() =~= Seq::<Seq<char>>::empty());
    } else {
        let d = args.drop_last();
        lemma_lex_args(d);
        lemma_lex_append(lex_start(), escape_args(d), seq![' ']);
        lemma_lex_one(lex(lex_start(), escape_args(d)), ' ');
        let between = LexState { words: d, cur: Seq::empty(), started: false, mode: 0 };
        assert(d.drop_last().push(d.last()) =~= d);
        lemma_lex_append(lex_start(), escape_args(d) + seq![' '], escape_arg(args.last()));
        lemma_lex_arg(between, args.last());
    }
}

/// Splitting the escaped, space-joined arguments the way a POSIX shell
/// splits words gives back exactly the arguments.
pub proof fn lemma_shell_words_of_escaped(args: Seq<Seq<char>>)
    ensures
        shell_words(escape_args(args)) == args,
{
    if args.len() == 0 {
        assert(escape_args(args) =~= Seq::<char>::empty());
        assert(args =~= Seq::<Seq<char>>::empty());
    } else {
        lemma_lex_args(args);
        assert(args.drop_last().push(args.last()) =~= args);
    }
}

} // verus!
