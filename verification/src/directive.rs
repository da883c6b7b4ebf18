//! The directive of a fenced code block: what its info string asks of the
//! example that the block holds.

use crate::text::{is_whitespace, str_eq, trim, trim_end, trim_start, whitespace};
use crate::text::{lemma_trim_end_take, lemma_trim_start_skip};
use vstd::prelude::*;

verus! {

/// The kinds of source that the script frontend takes.
#[derive(Clone, Copy, Debug, PartialEq, Eq, Structural)]
pub enum JsSource {
    /// A plain script, not a module.
    Script,
    /// A module in which JSX may occur.
    Jsx,
    /// A typed module.
    TypeScript,
    /// A typed module in which JSX may occur.
    Tsx,
    /// The script part of an Astro component.
    Astro,
    /// The script part of a Svelte component.
    Svelte,
    /// The script part of a Vue component.
    Vue,
}

/// A language that an example can be analyzed in.
#[derive(Clone, Copy, Debug, PartialEq, Eq, Structural)]
pub enum Language {
    Js(JsSource),
    Json,
    Css,
}

/// The language of a code block.
#[derive(Clone, Debug, PartialEq, Eq)]
pub enum BlockType {
    Js(JsSource),
    Json,
    Css,
    /// A language that no frontend takes, under the name the block gave it.
    Foreign(String),
}

/// What the info string of a code block asks for.
#[derive(Clone, Debug, PartialEq, Eq)]
pub struct CodeBlockTest {
    pub block_type: BlockType,
    pub expect_diagnostic: bool,
    pub ignore: bool,
}

/// The language of a code block, as contracts speak of it.
pub enum BlockTypeView {
    Js(JsSource),
    Json,
    Css,
    Foreign(Seq<char>),
}

/// A directive, as contracts speak of it.
pub struct Directive {
    pub block_type: BlockTypeView,
    pub expect_diagnostic: bool,
    pub ignore: bool,
}

impl View for BlockType {
    type V = BlockTypeView;

    open spec fn view(&self) -> BlockTypeView {
        match *self {
            BlockType::Js(source) => BlockTypeView::Js(source),
            BlockType::Json => BlockTypeView::Json,
            BlockType::Css => BlockTypeView::Css,
            BlockType::Foreign(name) => BlockTypeView::Foreign(name@),
        }
    }
}

impl View for CodeBlockTest {
    type V = Directive;

    open spec fn view(&self) -> Directive {
        Directive {
            block_type: self.block_type@,
            expect_diagnostic: self.expect_diagnostic,
            ignore: self.ignore,
        }
    }
}

/// Whether a character separates the tokens of an info string.
pub open spec fn is_separator(c: char) -> bool {
    c == ',' || c == ' ' || c == '\t'
}

/// The pieces of a text that its separators part; between two separators in a
/// row, and before a leading or after a trailing one, lies an empty piece.
pub open spec fn pieces(s: Seq<char>) -> Seq<Seq<char>>
    decreases s.len(),
{
    if s.len() == 0 {
        seq![Seq::empty()]
    } else {
        let before = pieces(s.drop_last());
        if is_separator(s.last()) {
            before.push(Seq::empty())
        } else {
            before.drop_last().push(before.last().push(s.last()))
        }
    }
}

/// The tokens among some pieces: each piece without the white space at its
/// ends, the empty ones left out.
pub open spec fn tokens_among(parts: Seq<Seq<char>>) -> Seq<Seq<char>>
    decreases parts.len(),
{
    if parts.len() == 0 {
        Seq::empty()
    } else {
        let before = tokens_among(parts.drop_last());
        let token = trim(parts.last());
        if token.len() == 0 {
            before
        } else {
            before.push(token)
        }
    }
}

/// The tokens of an info string.
pub open spec fn tokens(s: Seq<char>) -> Seq<Seq<char>> {
    tokens_among(pieces(s))
}

/// The language that a token names, if it names one.
pub open spec fn language_of(token: Seq<char>) -> Option<Language> {
    if token == "cjs"@ {
        Some(Language::Js(JsSource::Script))
    } else if token == "js"@ || token == "mjs"@ || token == "jsx"@ {
        Some(Language::Js(JsSource::Jsx))
    } else if token == "ts"@ || token == "mts"@ || token == "cts"@ {
        Some(Language::Js(JsSource::TypeScript))
    } else if token == "tsx"@ {
        Some(Language::Js(JsSource::Tsx))
    } else if token == "svelte"@ {
        Some(Language::Js(JsSource::Svelte))
    } else if token == "astro"@ {
        Some(Language::Js(JsSource::Astro))
    } else if token == "vue"@ {
        Some(Language::Js(JsSource::Vue))
    } else if token == "json"@ {
        Some(Language::Json)
    } else if token == "css"@ {
        Some(Language::Css)
    } else {
        None
    }
}

/// Whether a token is one of the two keywords that set a flag.
pub open spec fn is_flag(token: Seq<char>) -> bool {
    token == "expect_diagnostic"@ || token == "ignore"@
}

/// Whether a token is neither the name of a language nor a keyword.
pub open spec fn is_unknown(token: Seq<char>) -> bool {
    language_of(token) is None && !is_flag(token)
}

/// A language as the language of a code block.
pub open spec fn block_type_of(language: Language) -> BlockTypeView {
    match language {
        Language::Js(source) => BlockTypeView::Js(source),
        Language::Json => BlockTypeView::Json,
        Language::Css => BlockTypeView::Css,
    }
}

/// The directive of a block without an info string.
pub open spec fn default_directive() -> Directive {
    Directive {
        block_type: BlockTypeView::Foreign(Seq::empty()),
        expect_diagnostic: false,
        ignore: false,
    }
}

/// The directive that one more token makes of a directive.
pub open spec fn with_token(directive: Directive, token: Seq<char>) -> Directive {
    if language_of(token) is Some {
        Directive { block_type: block_type_of(language_of(token)->0), ..directive }
    } else if token == "expect_diagnostic"@ {
        Directive { expect_diagnostic: true, ..directive }
    } else if token == "ignore"@ {
        Directive { ignore: true, ..directive }
    } else {
        Directive { block_type: BlockTypeView::Foreign(token), ignore: true, ..directive }
    }
}

/// The directive that a sequence of tokens makes, read from left to right.
pub open spec fn directive_of(toks: Seq<Seq<char>>) -> Directive
    decreases toks.len(),
{
    if toks.len() == 0 {
        default_directive()
    } else {
        with_token(directive_of(toks.drop_last()), toks.last())
    }
}

/// The directive of an info string.
pub open spec fn parse_directive(info: Seq<char>) -> Directive {
    directive_of(tokens(info))
}

/// The tokens that are no keywords, in their order.
pub open spec fn without_flags(toks: Seq<Seq<char>>) -> Seq<Seq<char>>
    decreases toks.len(),
{
    if toks.len() == 0 {
        Seq::empty()
    } else {
        let before = without_flags(toks.drop_last());
        if is_flag(toks.last()) {
            before
        } else {
            before.push(toks.last())
        }
    }
}

/// No keyword is the name of a language, and the two keywords differ.
pub proof fn lemma_keywords()
    ensures
        language_of("expect_diagnostic"@) is None,
        language_of("ignore"@) is None,
        "expect_diagnostic"@ != "ignore"@,
{
    reveal_strlit("cjs");
    reveal_strlit("js");
    reveal_strlit("mjs");
    reveal_strlit("jsx");
    reveal_strlit("ts");
    reveal_strlit("mts");
    reveal_strlit("cts");
    reveal_strlit("tsx");
    reveal_strlit("svelte");
    reveal_strlit("astro");
    reveal_strlit("vue");
    reveal_strlit("json");
    reveal_strlit("css");
    reveal_strlit("expect_diagnostic");
    reveal_strlit("ignore");
    let e = "expect_diagnostic"@;
    let i = "ignore"@;
    assert(e.len() == 17);
    assert(i.len() == 6);
    assert(e[0] == 'e');
    assert(i[0] == 'i');
    assert("svelte"@[0] == 's');
}

/// A directive depends on its keywords only through which of them occur:
/// its language is that of the tokens that are no keywords, it expects a
/// diagnostic where `expect_diagnostic` occurs, and it is ignored where
/// `ignore` occurs or the other tokens ask for it.
pub proof fn lemma_flags_apart(toks: Seq<Seq<char>>)
    ensures
        directive_of(toks) == (Directive {
            block_type: directive_of(without_flags(toks)).block_type,
            expect_diagnostic: toks.contains("expect_diagnostic"@),
            ignore: toks.contains("ignore"@) || directive_of(without_flags(toks)).ignore,
        }),
        !directive_of(without_flags(toks)).expect_diagnostic,
    decreases toks.len(),
{
    lemma_keywords();
    if toks.len() > 0 {
        let before = toks.drop_last();
        let last = toks.last();
        lemma_flags_apart(before);
        assert(toks =~= before.push(last));
        assert forall|t: Seq<char>| toks.contains(t) <==> (before.contains(t) || t == last) by {
            if before.contains(t) {
                let i = choose|i: int| 0 <= i < before.len() && before[i] == t;
                assert(toks[i] == t);
            }
            if t == last {
                assert(toks[toks.len() - 1] == t);
            }
        }
        if !is_flag(last) {
            let core = without_flags(before);
            assert(without_flags(toks).drop_last() =~= core);
            assert(without_flags(toks).last() == last);
        }
    }
}

/// The order in which the keywords stand among the tokens does not matter:
/// two sequences of tokens in which the same keywords occur, and whose other
/// tokens are the same in the same order, make the same directive.
pub proof fn law_flag_order(a: Seq<Seq<char>>, b: Seq<Seq<char>>)
    requires
        without_flags(a) == without_flags(b),
        a.contains("expect_diagnostic"@) <==> b.contains("expect_diagnostic"@),
        a.contains("ignore"@) <==> b.contains("ignore"@),
    ensures
        directive_of(a) == directive_of(b),
{
    lemma_flags_apart(a);
    lemma_flags_apart(b);
}

/// The last language named wins: where a token names a language and only
/// keywords follow it, the block has that language, whatever stands before.
pub proof fn law_last_language_wins(toks: Seq<Seq<char>>, i: int)
    requires
        0 <= i < toks.len(),
        language_of(toks[i]) is Some,
        forall|j: int| i < j < toks.len() ==> is_flag(#[trigger] toks[j]),
    ensures
        directive_of(toks).block_type == block_type_of(language_of(toks[i])->0),
    decreases toks.len(),
{
    lemma_keywords();
    if i < toks.len() - 1 {
        let before = toks.drop_last();
        assert(is_flag(toks[toks.len() - 1]));
        assert(before[i] == toks[i]);
        assert forall|j: int| i < j < before.len() implies is_flag(#[trigger] before[j]) by {
            assert(before[j] == toks[j]);
        }
        law_last_language_wins(before, i);
    }
}

/// A token that is neither a language nor a keyword has the block ignored,
/// whatever the other tokens are.
pub proof fn law_unknown_token_forces_ignore(toks: Seq<Seq<char>>, i: int)
    requires
        0 <= i < toks.len(),
        is_unknown(toks[i]),
    ensures
        directive_of(toks).ignore,
    decreases toks.len(),
{
    if i < toks.len() - 1 {
        let before = toks.drop_last();
        assert(before[i] == toks[i]);
        law_unknown_token_forces_ignore(before, i);
    }
}

/// Tells whether `c` separates two tokens of an info string.
pub fn separates(c: char) -> (r: bool)
    ensures
        r == is_separator(c),
{
    c == ',' || c == ' ' || c == '\t'
}

impl JsSource {
    /// The tag under which a block of this kind is rendered: that of the
    /// component format for an embedding, else that of the language, with an
    /// `x` behind it where JSX may occur.
    pub open spec fn tag(self) -> Seq<char> {
        match self {
            JsSource::Script => "js"@,
            JsSource::Jsx => "jsx"@,
            JsSource::TypeScript => "ts"@,
            JsSource::Tsx => "tsx"@,
            JsSource::Astro => "astro"@,
            JsSource::Svelte => "svelte"@,
            JsSource::Vue => "vue"@,
        }
    }

    /// The tag under which a block of this kind is rendered.
    pub fn fence(&self) -> (tag: &'static str)
        ensures
            tag@ == self.tag(),
    {
        match self {
            JsSource::Script => "js",
            JsSource::Jsx => "jsx",
            JsSource::TypeScript => "ts",
            JsSource::Tsx => "tsx",
            JsSource::Astro => "astro",
            JsSource::Svelte => "svelte",
            JsSource::Vue => "vue",
        }
    }
}

impl BlockTypeView {
    /// The language that a frontend takes, if the block has one.
    pub open spec fn language(self) -> Option<Language> {
        match self {
            BlockTypeView::Js(source) => Some(Language::Js(source)),
            BlockTypeView::Json => Some(Language::Json),
            BlockTypeView::Css => Some(Language::Css),
            BlockTypeView::Foreign(_) => None,
        }
    }
}

impl BlockType {
    /// The language that a frontend takes, if the block has one.
    pub fn language(&self) -> (language: Option<Language>)
        ensures
            language == self@.language(),
    {
        match self {
            BlockType::Js(source) => Some(Language::Js(*source)),
            BlockType::Json => Some(Language::Json),
            BlockType::Css => Some(Language::Css),
            BlockType::Foreign(_) => None,
        }
    }
}

/// The token that a piece holds: the piece without the white space at its ends.
fn token_of(piece: &Vec<char>) -> (token: String)
    ensures
        token@ == trim(piece@),
{
    let mut from: usize = 0;
    while from < piece.len() && whitespace(piece[from])
        invariant
            from <= piece.len(),
            forall|i: int| 0 <= i < from ==> is_whitespace(#[trigger] piece@[i]),
        decreases piece.len() - from,
    {
        from = from + 1;
    }
    let mut to: usize = piece.len();
    while to > from && whitespace(piece[to - 1])
        invariant
            from <= to <= piece.len(),
            forall|i: int| to <= i < piece.len() ==> is_whitespace(#[trigger] piece@[i]),
        decreases to,
    {
        to = to - 1;
    }
    let mut token = String::new();
    let mut i: usize = from;
    while i < to
        invariant
            from <= i <= to <= piece.len(),
            token@ == piece@.subrange(from as int, i as int),
        decreases to - i,
    {
        proof {
            assert(piece@.subrange(from as int, i + 1) =~= piece@.subrange(
                from as int,
                i as int,
            ).push(piece@[i as int]));
        }
        token.push(piece[i]);
        i = i + 1;
    }
    proof {
        let s = piece@;
        let tail = s.skip(from as int);
        lemma_trim_start_skip(s, from as int);
        assert(trim_start(tail) == tail) by {
            if tail.len() > 0 {
                assert(tail[0] == s[from as int]);
            }
        }
        let kept = to - from;
        assert forall|i: int| kept <= i < tail.len() implies is_whitespace(#[trigger] tail[i]) by {
            assert(tail[i] == s[from + i]);
        }
        lemma_trim_end_take(tail, kept);
        let core = tail.take(kept);
        assert(core =~= s.subrange(from as int, to as int));
        assert(trim_end(core) == core) by {
            if core.len() > 0 {
                assert(core.last() == s[to - 1]);
            }
        }
    }
    token
}

impl CodeBlockTest {
    /// The directive that one more token makes of this one.
    fn with_token(self, token: String) -> (test: CodeBlockTest)
        ensures
            test@ == with_token(self@, token@),
    {
        let name = token.as_str();
        let mut test = self;
        if str_eq(name, "cjs") {
            test.block_type = BlockType::Js(JsSource::Script);
        } else if str_eq(name, "js") || str_eq(name, "mjs") || str_eq(name, "jsx") {
            test.block_type = BlockType::Js(JsSource::Jsx);
        } else if str_eq(name, "ts") || str_eq(name, "mts") || str_eq(name, "cts") {
            test.block_type = BlockType::Js(JsSource::TypeScript);
        } else if str_eq(name, "tsx") {
            test.block_type = BlockType::Js(JsSource::Tsx);
        } else if str_eq(name, "svelte") {
            test.block_type = BlockType::Js(JsSource::Svelte);
        } else if str_eq(name, "astro") {
            test.block_type = BlockType::Js(JsSource::Astro);
        } else if str_eq(name, "vue") {
            test.block_type = BlockType::Js(JsSource::Vue);
        } else if str_eq(name, "json") {
            test.block_type = BlockType::Json;
        } else if str_eq(name, "css") {
            test.block_type = BlockType::Css;
        } else if str_eq(name, "expect_diagnostic") {
            test.expect_diagnostic = true;
        } else if str_eq(name, "ignore") {
            test.ignore = true;
        } else {
            test.block_type = BlockType::Foreign(token);
            test.ignore = true;
        }
        test
    }

    /// The directive that one more piece of the info string makes of this
    /// one: a piece that holds no token leaves it as it is.
    fn with_piece(self, piece: &Vec<char>) -> (test: CodeBlockTest)
        ensures
            trim(piece@).len() == 0 ==> test@ == self@,
            trim(piece@).len() != 0 ==> test@ == with_token(self@, trim(piece@)),
    {
        let token = token_of(piece);
        if token.as_str().unicode_len() == 0 {
            self
        } else {
            self.with_token(token)
        }
    }

    /// Reads the directive of a code block from its info string. Every info
    /// string has one: a token that is neither a language nor a keyword makes
    /// the block a foreign one that is left alone.
    pub fn from_str(input: &str) -> (test: CodeBlockTest)
        ensures
            test@ == parse_directive(input@),
    {
        let mut test = CodeBlockTest {
            block_type: BlockType::Foreign(String::new()),
            expect_diagnostic: false,
            ignore: false,
        };
        let mut piece: Vec<char> = Vec::new();
        let ghost mut done: Seq<Seq<char>> = Seq::empty();
        proof {
            assert(input@.take(0) =~= Seq::<char>::empty());
            assert(done.push(piece@) =~= seq![Seq::<char>::empty()]);
        }
        for c in it: input.chars()
            invariant
                it.seq() == input@,
                pieces(input@.take(it.index() as int)) == done.push(piece@),
                test@ == directive_of(tokens_among(done)),
        {
            proof {
                let k = it.index() as int;
                let read = input@.take(k + 1);
                assert(read.drop_last() =~= input@.take(k));
                assert(read.last() == c);
                assert(done.push(piece@).drop_last() =~= done);
                assert(done.push(piece@).last() == piece@);
            }
            if separates(c) {
                test = test.with_piece(&piece);
                proof {
                    let next = done.push(piece@);
                    assert(next.drop_last() =~= done);
                    let toks = tokens_among(next);
                    if trim(piece@).len() != 0 {
                        assert(toks.drop_last() =~= tokens_among(done));
                    }
                    done = next;
                }
                piece = Vec::new();
            } else {
                piece.push(c);
            }
        }
        proof {
            assert(input@.take(input@.len() as int) =~= input@);
            let all = done.push(piece@);
            assert(all.drop_last() =~= done);
            if trim(piece@).len() != 0 {
                assert(tokens_among(all).drop_last() =~= tokens_among(done));
            }
        }
        test.with_piece(&piece)
    }
}

} // verus!
