//! The compiler front end: it scans a whole source text and lists its
//! tokens, marking each token that starts a new line of the listing.

use vstd::prelude::*;
use crate::lexical::{lemma_scan_bounds, lex};
use crate::scanner::Scanner;
use crate::token::{Token, TokenModel, TokenType};

verus! {

/// A token in the listing, and whether the listing shows its line number
/// (`true`) or a continuation mark (`false`): the number is shown when the
/// line differs from that of the token before (the first token's line is
/// compared with 0).
pub struct ListedToken {
    pub token: Token,
    pub starts_line: bool,
}

/// The tokens of a source text, in order, and whether scanning ended on an
/// `EOF` token (`true`) or stopped where the next scan would read past the
/// end of the text (`false`).
pub struct Listing {
    pub entries: Vec<ListedToken>,
    pub reached_eof: bool,
}

/// The models of the listed tokens.
pub open spec fn listed_tokens(entries: Seq<ListedToken>) -> Seq<TokenModel> {
    entries.map_values(|e: ListedToken| e.token@)
}

/// The line a listed token is compared with: that of the token before it, or
/// 0 for the first.
pub open spec fn previous_line(entries: Seq<ListedToken>, i: int) -> int {
    if i == 0 {
        0
    } else {
        entries[i - 1].token.line as int
    }
}

/// Each entry is marked as starting a line exactly when its line differs
/// from the line before it.
pub open spec fn lines_marked(entries: Seq<ListedToken>) -> bool {
    forall|i: int|
        0 <= i < entries.len() ==> #[trigger] entries[i].starts_line == (entries[i].token.line
            != previous_line(entries, i))
}

impl Listing {
    /// This listing is the one of `src`: the tokens that scanning it from
    /// the start on line 1 gives, with their line marks, and how it ended.
    pub open spec fn lists(&self, src: Seq<char>) -> bool {
        &&& listed_tokens(self.entries@) == lex(src, 0, 1).0
        &&& self.reached_eof == lex(src, 0, 1).1
        &&& lines_marked(self.entries@)
    }
}

/// The compiler. It holds no state.
#[allow(non_camel_case_types)]
pub struct compiler {}

impl compiler {
    /// A compiler.
    pub fn new() -> (c: compiler) {
        Self {  }
    }

    /// Scans `source` token by token until an `EOF` token, or until the
    /// next scan would read past the end of the text, and lists the tokens.
    pub fn compile(&self, source: &String) -> (listing: Listing)
        requires
            source@.len() < usize::MAX,
        ensures
            listing.lists(source@),
    {
        let ghost src = source@;
        let mut s = Scanner::new(source);
        let mut line: usize = 0;
        let mut entries: Vec<ListedToken> = Vec::new();
        loop
            invariant
                src == source@,
                s.wf(),
                s.source@ == src,
                listed_tokens(entries@) + lex(src, s.current as int, s.line as int).0 == lex(
                    src,
                    0,
                    1,
                ).0,
                lex(src, s.current as int, s.line as int).1 == lex(src, 0, 1).1,
                line == (if entries@.len() == 0 {
                    0
                } else {
                    entries@.last().token.line as int
                }),
                lines_marked(entries@),
            decreases src.len() - s.current,
        {
            if !s.can_scan() {
                let ghost rest = lex(src, s.current as int, s.line as int).0;
                assert(rest =~= Seq::<TokenModel>::empty());
                assert(listed_tokens(entries@) =~= listed_tokens(entries@) + rest);
                return Listing { entries, reached_eof: false };
            }
            let ghost before = entries@;
            let ghost cur = s.current as int;
            let ghost ln = s.line as int;
            proof {
                lemma_scan_bounds(src, cur, ln);
            }
            let token = s.scan_token();
            let starts_line = token.line != line;
            if starts_line {
                line = token.line;
            }
            let eof = token.ttype == TokenType::EOF;
            entries.push(ListedToken { token, starts_line });
            assert(listed_tokens(entries@) =~= listed_tokens(before).push(
                entries@.last().token@,
            ));
            if eof {
                assert(listed_tokens(entries@) =~= listed_tokens(before) + lex(src, cur, ln).0);
                return Listing { entries, reached_eof: true };
            }
            assert(listed_tokens(entries@) + lex(src, s.current as int, s.line as int).0
                =~= listed_tokens(before) + lex(src, cur, ln).0);
        }
    }
}

} // verus!
