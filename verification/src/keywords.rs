//! Reserved words of ActionScript 3.

use vstd::prelude::*;
use crate::token::{Token, punctuator_spelling};

verus! {

/// The token of a reserved word, or `None` for any other identifier name.
pub open spec fn spec_reserved_word_token(name: Seq<char>) -> Option<Token> {
    if name == seq!['a', 's'] { Some(Token::As) }
    else if name == seq!['d', 'o'] { Some(Token::Do) }
    else if name == seq!['i', 'f'] { Some(Token::If) }
    else if name == seq!['i', 'n'] { Some(Token::In) }
    else if name == seq!['i', 's'] { Some(Token::Is) }
    else if name == seq!['f', 'o', 'r'] { Some(Token::For) }
    else if name == seq!['n', 'e', 'w'] { Some(Token::New) }
    else if name == seq!['t', 'r', 'y'] { Some(Token::Try) }
    else if name == seq!['u', 's', 'e'] { Some(Token::Use) }
    else if name == seq!['v', 'a', 'r'] { Some(Token::Var) }
    else if name == seq!['c', 'a', 's', 'e'] { Some(Token::Case) }
    else if name == seq!['e', 'l', 's', 'e'] { Some(Token::Else) }
    else if name == seq!['n', 'u', 'l', 'l'] { Some(Token::Null) }
    else if name == seq!['t', 'h', 'i', 's'] { Some(Token::This) }
    else if name == seq!['t', 'r', 'u', 'e'] { Some(Token::True) }
    else if name == seq!['v', 'o', 'i', 'd'] { Some(Token::Void) }
    else if name == seq!['w', 'i', 't', 'h'] { Some(Token::With) }
    else if name == seq!['a', 'w', 'a', 'i', 't'] { Some(Token::Await) }
    else if name == seq!['b', 'r', 'e', 'a', 'k'] { Some(Token::Break) }
    else if name == seq!['c', 'a', 't', 'c', 'h'] { Some(Token::Catch) }
    else if name == seq!['c', 'o', 'n', 's', 't'] { Some(Token::Const) }
    else if name == seq!['f', 'a', 'l', 's', 'e'] { Some(Token::False) }
    else if name == seq!['s', 'u', 'p', 'e', 'r'] { Some(Token::Super) }
    else if name == seq!['t', 'h', 'r', 'o', 'w'] { Some(Token::Throw) }
    else if name == seq!['w', 'h', 'i', 'l', 'e'] { Some(Token::While) }
    else if name == seq!['c', 'l', 'a', 's', 's'] { Some(Token::Class) }
    else if name == seq!['y', 'i', 'e', 'l', 'd'] { Some(Token::Yield) }
    else if name == seq!['d', 'e', 'l', 'e', 't', 'e'] { Some(Token::Delete) }
    else if name == seq!['i', 'm', 'p', 'o', 'r', 't'] { Some(Token::Import) }
    else if name == seq!['p', 'u', 'b', 'l', 'i', 'c'] { Some(Token::Public) }
    else if name == seq!['s', 'w', 'i', 't', 'c', 'h'] { Some(Token::Switch) }
    else if name == seq!['t', 'y', 'p', 'e', 'o', 'f'] { Some(Token::Typeof) }
    else if name == seq!['e', 'x', 'p', 'o', 'r', 't'] { Some(Token::Export) }
    else if name == seq!['r', 'e', 't', 'u', 'r', 'n'] { Some(Token::Return) }
    else if name == seq!['d', 'e', 'f', 'a', 'u', 'l', 't'] { Some(Token::Default) }
    else if name == seq!['e', 'x', 't', 'e', 'n', 'd', 's'] { Some(Token::Extends) }
    else if name == seq!['f', 'i', 'n', 'a', 'l', 'l', 'y'] { Some(Token::Finally) }
    else if name == seq!['p', 'a', 'c', 'k', 'a', 'g', 'e'] { Some(Token::Package) }
    else if name == seq!['p', 'r', 'i', 'v', 'a', 't', 'e'] { Some(Token::Private) }
    else if name == seq!['c', 'o', 'n', 't', 'i', 'n', 'u', 'e'] { Some(Token::Continue) }
    else if name == seq!['f', 'u', 'n', 'c', 't', 'i', 'o', 'n'] { Some(Token::Function) }
    else if name == seq!['i', 'n', 't', 'e', 'r', 'n', 'a', 'l'] { Some(Token::Internal) }
    else if name == seq!['i', 'n', 't', 'e', 'r', 'f', 'a', 'c', 'e'] { Some(Token::Interface) }
    else if name == seq!['p', 'r', 'o', 't', 'e', 'c', 't', 'e', 'd'] { Some(Token::Protected) }
    else if name == seq!['i', 'm', 'p', 'l', 'e', 'm', 'e', 'n', 't', 's'] { Some(Token::Implements) }
    else if name == seq!['i', 'n', 's', 't', 'a', 'n', 'c', 'e', 'o', 'f'] { Some(Token::Instanceof) }
    else { None }
}

/// The name of a reserved word token, for every token that spells a word of
/// the language.
pub open spec fn spec_reserved_word_name(t: Token) -> Option<Seq<char>> {
    match t {
        Token::As => Some(seq!['a', 's']),
        Token::Do => Some(seq!['d', 'o']),
        Token::If => Some(seq!['i', 'f']),
        Token::In => Some(seq!['i', 'n']),
        Token::Is => Some(seq!['i', 's']),
        Token::For => Some(seq!['f', 'o', 'r']),
        Token::New => Some(seq!['n', 'e', 'w']),
        Token::Try => Some(seq!['t', 'r', 'y']),
        Token::Use => Some(seq!['u', 's', 'e']),
        Token::Var => Some(seq!['v', 'a', 'r']),
        Token::Case => Some(seq!['c', 'a', 's', 'e']),
        Token::Else => Some(seq!['e', 'l', 's', 'e']),
        Token::Null => Some(seq!['n', 'u', 'l', 'l']),
        Token::This => Some(seq!['t', 'h', 'i', 's']),
        Token::True => Some(seq!['t', 'r', 'u', 'e']),
        Token::Void => Some(seq!['v', 'o', 'i', 'd']),
        Token::With => Some(seq!['w', 'i', 't', 'h']),
        Token::Await => Some(seq!['a', 'w', 'a', 'i', 't']),
        Token::Break => Some(seq!['b', 'r', 'e', 'a', 'k']),
        Token::Catch => Some(seq!['c', 'a', 't', 'c', 'h']),
        Token::Const => Some(seq!['c', 'o', 'n', 's', 't']),
        Token::False => Some(seq!['f', 'a', 'l', 's', 'e']),
        Token::Super => Some(seq!['s', 'u', 'p', 'e', 'r']),
        Token::Throw => Some(seq!['t', 'h', 'r', 'o', 'w']),
        Token::While => Some(seq!['w', 'h', 'i', 'l', 'e']),
        Token::Yield => Some(seq!['y', 'i', 'e', 'l', 'd']),
        Token::Delete => Some(seq!['d', 'e', 'l', 'e', 't', 'e']),
        Token::Import => Some(seq!['i', 'm', 'p', 'o', 'r', 't']),
        Token::Public => Some(seq!['p', 'u', 'b', 'l', 'i', 'c']),
        Token::Switch => Some(seq!['s', 'w', 'i', 't', 'c', 'h']),
        Token::Typeof => Some(seq!['t', 'y', 'p', 'e', 'o', 'f']),
        Token::Default => Some(seq!['d', 'e', 'f', 'a', 'u', 'l', 't']),
        Token::Extends => Some(seq!['e', 'x', 't', 'e', 'n', 'd', 's']),
        Token::Finally => Some(seq!['f', 'i', 'n', 'a', 'l', 'l', 'y']),
        Token::Package => Some(seq!['p', 'a', 'c', 'k', 'a', 'g', 'e']),
        Token::Continue => Some(seq!['c', 'o', 'n', 't', 'i', 'n', 'u', 'e']),
        Token::Function => Some(seq!['f', 'u', 'n', 'c', 't', 'i', 'o', 'n']),
        Token::Internal => Some(seq!['i', 'n', 't', 'e', 'r', 'n', 'a', 'l']),
        Token::Interface => Some(seq!['i', 'n', 't', 'e', 'r', 'f', 'a', 'c', 'e']),
        Token::Protected => Some(seq!['p', 'r', 'o', 't', 'e', 'c', 't', 'e', 'd']),
        Token::Implements => Some(seq!['i', 'm', 'p', 'l', 'e', 'm', 'e', 'n', 't', 's']),
        Token::Instanceof => Some(seq!['i', 'n', 's', 't', 'a', 'n', 'c', 'e', 'o', 'f']),
        Token::Class => Some(seq!['c', 'l', 'a', 's', 's']),
        Token::Export => Some(seq!['e', 'x', 'p', 'o', 'r', 't']),
        Token::Private => Some(seq!['p', 'r', 'i', 'v', 'a', 't', 'e']),
        Token::Return => Some(seq!['r', 'e', 't', 'u', 'r', 'n']),
        _ => None,
    }
}

/// Whether two strings hold the same characters.
pub fn str_eq(a: &str, b: &str) -> (r: bool)
    ensures
        r == (a@ == b@),
{
    let n = a.unicode_len();
    if n != b.unicode_len() {
        return false;
    }
    let mut i: usize = 0;
    while i < n
        invariant
            n == a@.len() == b@.len(),
            i <= n,
            forall|j: int| 0 <= j < i ==> a@[j] == b@[j],
        decreases n - i,
    {
        if a.get_char(i) != b.get_char(i) {
            return false;
        }
        i = i + 1;
    }
    assert(a@ =~= b@);
    true
}

/// Checks if an IdentifierName is a reserved word.
pub fn is_reserved_word(name: &str) -> (r: bool)
    ensures
        r == spec_reserved_word_token(name@) is Some,
{
    reserved_word_token(name).is_some()
}

/// Attempts to convert an IdentifierName to a reserved word token.
pub fn reserved_word_token(name: &str) -> (r: Option<Token>)
    ensures
        r == spec_reserved_word_token(name@),
{
    proof {
        reveal_strlit("as");
        assert("as"@ =~= seq!['a', 's']);
        reveal_strlit("do");
        assert("do"@ =~= seq!['d', 'o']);
        reveal_strlit("if");
        assert("if"@ =~= seq!['i', 'f']);
        reveal_strlit("in");
        assert("in"@ =~= seq!['i', 'n']);
        reveal_strlit("is");
        assert("is"@ =~= seq!['i', 's']);
        reveal_strlit("for");
        assert("for"@ =~= seq!['f', 'o', 'r']);
        reveal_strlit("new");
        assert("new"@ =~= seq!['n', 'e', 'w']);
        reveal_strlit("try");
        assert("try"@ =~= seq!['t', 'r', 'y']);
        reveal_strlit("use");
        assert("use"@ =~= seq!['u', 's', 'e']);
        reveal_strlit("var");
        assert("var"@ =~= seq!['v', 'a', 'r']);
        reveal_strlit("case");
        assert("case"@ =~= seq!['c', 'a', 's', 'e']);
        reveal_strlit("else");
        assert("else"@ =~= seq!['e', 'l', 's', 'e']);
        reveal_strlit("null");
        assert("null"@ =~= seq!['n', 'u', 'l', 'l']);
        reveal_strlit("this");
        assert("this"@ =~= seq!['t', 'h', 'i', 's']);
        reveal_strlit("true");
        assert("true"@ =~= seq!['t', 'r', 'u', 'e']);
        reveal_strlit("void");
        assert("void"@ =~= seq!['v', 'o', 'i', 'd']);
        reveal_strlit("with");
        assert("with"@ =~= seq!['w', 'i', 't', 'h']);
        reveal_strlit("await");
        assert("await"@ =~= seq!['a', 'w', 'a', 'i', 't']);
        reveal_strlit("break");
        assert("break"@ =~= seq!['b', 'r', 'e', 'a', 'k']);
        reveal_strlit("catch");
        assert("catch"@ =~= seq!['c', 'a', 't', 'c', 'h']);
        reveal_strlit("const");
        assert("const"@ =~= seq!['c', 'o', 'n', 's', 't']);
        reveal_strlit("false");
        assert("false"@ =~= seq!['f', 'a', 'l', 's', 'e']);
        reveal_strlit("super");
        assert("super"@ =~= seq!['s', 'u', 'p', 'e', 'r']);
        reveal_strlit("throw");
        assert("throw"@ =~= seq!['t', 'h', 'r', 'o', 'w']);
        reveal_strlit("while");
        assert("while"@ =~= seq!['w', 'h', 'i', 'l', 'e']);
        reveal_strlit("yield");
        assert("yield"@ =~= seq!['y', 'i', 'e', 'l', 'd']);
        reveal_strlit("delete");
        assert("delete"@ =~= seq!['d', 'e', 'l', 'e', 't', 'e']);
        reveal_strlit("import");
        assert("import"@ =~= seq!['i', 'm', 'p', 'o', 'r', 't']);
        reveal_strlit("public");
        assert("public"@ =~= seq!['p', 'u', 'b', 'l', 'i', 'c']);
        reveal_strlit("switch");
        assert("switch"@ =~= seq!['s', 'w', 'i', 't', 'c', 'h']);
        reveal_strlit("typeof");
        assert("typeof"@ =~= seq!['t', 'y', 'p', 'e', 'o', 'f']);
        reveal_strlit("default");
        assert("default"@ =~= seq!['d', 'e', 'f', 'a', 'u', 'l', 't']);
        reveal_strlit("extends");
        assert("extends"@ =~= seq!['e', 'x', 't', 'e', 'n', 'd', 's']);
        reveal_strlit("finally");
        assert("finally"@ =~= seq!['f', 'i', 'n', 'a', 'l', 'l', 'y']);
        reveal_strlit("package");
        assert("package"@ =~= seq!['p', 'a', 'c', 'k', 'a', 'g', 'e']);
        reveal_strlit("continue");
        assert("continue"@ =~= seq!['c', 'o', 'n', 't', 'i', 'n', 'u', 'e']);
        reveal_strlit("function");
        assert("function"@ =~= seq!['f', 'u', 'n', 'c', 't', 'i', 'o', 'n']);
        reveal_strlit("internal");
        assert("internal"@ =~= seq!['i', 'n', 't', 'e', 'r', 'n', 'a', 'l']);
        reveal_strlit("interface");
        assert("interface"@ =~= seq!['i', 'n', 't', 'e', 'r', 'f', 'a', 'c', 'e']);
        reveal_strlit("protected");
        assert("protected"@ =~= seq!['p', 'r', 'o', 't', 'e', 'c', 't', 'e', 'd']);
        reveal_strlit("implements");
        assert("implements"@ =~= seq!['i', 'm', 'p', 'l', 'e', 'm', 'e', 'n', 't', 's']);
        reveal_strlit("instanceof");
        assert("instanceof"@ =~= seq!['i', 'n', 's', 't', 'a', 'n', 'c', 'e', 'o', 'f']);
        reveal_strlit("class");
        assert("class"@ =~= seq!['c', 'l', 'a', 's', 's']);
        reveal_strlit("export");
        assert("export"@ =~= seq!['e', 'x', 'p', 'o', 'r', 't']);
        reveal_strlit("private");
        assert("private"@ =~= seq!['p', 'r', 'i', 'v', 'a', 't', 'e']);
        reveal_strlit("return");
        assert("return"@ =~= seq!['r', 'e', 't', 'u', 'r', 'n']);
    }
    let n = name.unicode_len();
    if n == 2 {
        if str_eq(name, "as") { Some(Token::As) }
        else if str_eq(name, "do") { Some(Token::Do) }
        else if str_eq(name, "if") { Some(Token::If) }
        else if str_eq(name, "in") { Some(Token::In) }
        else if str_eq(name, "is") { Some(Token::Is) }
        else { None }
    } else if n == 3 {
        if str_eq(name, "for") { Some(Token::For) }
        else if str_eq(name, "new") { Some(Token::New) }
        else if str_eq(name, "try") { Some(Token::Try) }
        else if str_eq(name, "use") { Some(Token::Use) }
        else if str_eq(name, "var") { Some(Token::Var) }
        else { None }
    } else if n == 4 {
        if str_eq(name, "case") { Some(Token::Case) }
        else if str_eq(name, "else") { Some(Token::Else) }
        else if str_eq(name, "null") { Some(Token::Null) }
        else if str_eq(name, "this") { Some(Token::This) }
        else if str_eq(name, "true") { Some(Token::True) }
        else if str_eq(name, "void") { Some(Token::Void) }
        else if str_eq(name, "with") { Some(Token::With) }
        else { None }
    } else if n == 5 {
        if str_eq(name, "await") { Some(Token::Await) }
        else if str_eq(name, "break") { Some(Token::Break) }
        else if str_eq(name, "catch") { Some(Token::Catch) }
        else if str_eq(name, "const") { Some(Token::Const) }
        else if str_eq(name, "false") { Some(Token::False) }
        else if str_eq(name, "super") { Some(Token::Super) }
        else if str_eq(name, "throw") { Some(Token::Throw) }
        else if str_eq(name, "while") { Some(Token::While) }
        else if str_eq(name, "class") { Some(Token::Class) }
        else if str_eq(name, "yield") { Some(Token::Yield) }
        else { None }
    } else if n == 6 {
        if str_eq(name, "delete") { Some(Token::Delete) }
        else if str_eq(name, "import") { Some(Token::Import) }
        else if str_eq(name, "public") { Some(Token::Public) }
        else if str_eq(name, "switch") { Some(Token::Switch) }
        else if str_eq(name, "typeof") { Some(Token::Typeof) }
        else if str_eq(name, "export") { Some(Token::Export) }
        else if str_eq(name, "return") { Some(Token::Return) }
        else { None }
    } else if n == 7 {
        if str_eq(name, "default") { Some(Token::Default) }
        else if str_eq(name, "extends") { Some(Token::Extends) }
        else if str_eq(name, "finally") { Some(Token::Finally) }
        else if str_eq(name, "package") { Some(Token::Package) }
        else if str_eq(name, "private") { Some(Token::Private) }
        else { None }
    } else if n == 8 {
        if str_eq(name, "continue") { Some(Token::Continue) }
        else if str_eq(name, "function") { Some(Token::Function) }
        else if str_eq(name, "internal") { Some(Token::Internal) }
        else { None }
    } else if n == 9 {
        if str_eq(name, "interface") { Some(Token::Interface) }
        else if str_eq(name, "protected") { Some(Token::Protected) }
        else { None }
    } else if n == 10 {
        if str_eq(name, "implements") { Some(Token::Implements) }
        else if str_eq(name, "instanceof") { Some(Token::Instanceof) }
        else { None }
    } else {
        None
    }
}

impl Token {
    /// The name of a reserved word token.
    pub fn reserved_word_name(&self) -> (r: Option<String>)
        ensures
            match spec_reserved_word_name(*self) {
                Some(s) => r matches Some(x) && x@ == s,
                None => r is None,
            },
    {
        let s: &str = match self {
            Token::As => "as",
            Token::Do => "do",
            Token::If => "if",
            Token::In => "in",
            Token::Is => "is",
            Token::For => "for",
            Token::New => "new",
            Token::Try => "try",
            Token::Use => "use",
            Token::Var => "var",
            Token::Case => "case",
            Token::Else => "else",
            Token::Null => "null",
            Token::This => "this",
            Token::True => "true",
            Token::Void => "void",
            Token::With => "with",
            Token::Await => "await",
            Token::Break => "break",
            Token::Catch => "catch",
            Token::Const => "const",
            Token::False => "false",
            Token::Super => "super",
            Token::Throw => "throw",
            Token::While => "while",
            Token::Yield => "yield",
            Token::Delete => "delete",
            Token::Import => "import",
            Token::Public => "public",
            Token::Switch => "switch",
            Token::Typeof => "typeof",
            Token::Default => "default",
            Token::Extends => "extends",
            Token::Finally => "finally",
            Token::Package => "package",
            Token::Continue => "continue",
            Token::Function => "function",
            Token::Internal => "internal",
            Token::Interface => "interface",
            Token::Protected => "protected",
            Token::Implements => "implements",
            Token::Instanceof => "instanceof",
            Token::Class => "class",
            Token::Export => "export",
            Token::Private => "private",
            Token::Return => "return",
            _ => { return None; }
        };
        proof {
            reveal_strlit("as");
            assert("as"@ =~= seq!['a', 's']);
            reveal_strlit("do");
            assert("do"@ =~= seq!['d', 'o']);
            reveal_strlit("if");
            assert("if"@ =~= seq!['i', 'f']);
            reveal_strlit("in");
            assert("in"@ =~= seq!['i', 'n']);
            reveal_strlit("is");
            assert("is"@ =~= seq!['i', 's']);
            reveal_strlit("for");
            assert("for"@ =~= seq!['f', 'o', 'r']);
            reveal_strlit("new");
            assert("new"@ =~= seq!['n', 'e', 'w']);
            reveal_strlit("try");
            assert("try"@ =~= seq!['t', 'r', 'y']);
            reveal_strlit("use");
            assert("use"@ =~= seq!['u', 's', 'e']);
            reveal_strlit("var");
            assert("var"@ =~= seq!['v', 'a', 'r']);
            reveal_strlit("case");
            assert("case"@ =~= seq!['c', 'a', 's', 'e']);
            reveal_strlit("else");
            assert("else"@ =~= seq!['e', 'l', 's', 'e']);
            reveal_strlit("null");
            assert("null"@ =~= seq!['n', 'u', 'l', 'l']);
            reveal_strlit("this");
            assert("this"@ =~= seq!['t', 'h', 'i', 's']);
            reveal_strlit("true");
            assert("true"@ =~= seq!['t', 'r', 'u', 'e']);
            reveal_strlit("void");
            assert("void"@ =~= seq!['v', 'o', 'i', 'd']);
            reveal_strlit("with");
            assert("with"@ =~= seq!['w', 'i', 't', 'h']);
            reveal_strlit("await");
            assert("await"@ =~= seq!['a', 'w', 'a', 'i', 't']);
            reveal_strlit("break");
            assert("break"@ =~= seq!['b', 'r', 'e', 'a', 'k']);
            reveal_strlit("catch");
            assert("catch"@ =~= seq!['c', 'a', 't', 'c', 'h']);
            reveal_strlit("const");
            assert("const"@ =~= seq!['c', 'o', 'n', 's', 't']);
            reveal_strlit("false");
            assert("false"@ =~= seq!['f', 'a', 'l', 's', 'e']);
            reveal_strlit("super");
            assert("super"@ =~= seq!['s', 'u', 'p', 'e', 'r']);
            reveal_strlit("throw");
            assert("throw"@ =~= seq!['t', 'h', 'r', 'o', 'w']);
            reveal_strlit("while");
            assert("while"@ =~= seq!['w', 'h', 'i', 'l', 'e']);
            reveal_strlit("yield");
            assert("yield"@ =~= seq!['y', 'i', 'e', 'l', 'd']);
            reveal_strlit("delete");
            assert("delete"@ =~= seq!['d', 'e', 'l', 'e', 't', 'e']);
            reveal_strlit("import");
            assert("import"@ =~= seq!['i', 'm', 'p', 'o', 'r', 't']);
            reveal_strlit("public");
            assert("public"@ =~= seq!['p', 'u', 'b', 'l', 'i', 'c']);
            reveal_strlit("switch");
            assert("switch"@ =~= seq!['s', 'w', 'i', 't', 'c', 'h']);
            reveal_strlit("typeof");
            assert("typeof"@ =~= seq!['t', 'y', 'p', 'e', 'o', 'f']);
            reveal_strlit("default");
            assert("default"@ =~= seq!['d', 'e', 'f', 'a', 'u', 'l', 't']);
            reveal_strlit("extends");
            assert("extends"@ =~= seq!['e', 'x', 't', 'e', 'n', 'd', 's']);
            reveal_strlit("finally");
            assert("finally"@ =~= seq!['f', 'i', 'n', 'a', 'l', 'l', 'y']);
            reveal_strlit("package");
            assert("package"@ =~= seq!['p', 'a', 'c', 'k', 'a', 'g', 'e']);
            reveal_strlit("continue");
            assert("continue"@ =~= seq!['c', 'o', 'n', 't', 'i', 'n', 'u', 'e']);
            reveal_strlit("function");
            assert("function"@ =~= seq!['f', 'u', 'n', 'c', 't', 'i', 'o', 'n']);
            reveal_strlit("internal");
            assert("internal"@ =~= seq!['i', 'n', 't', 'e', 'r', 'n', 'a', 'l']);
            reveal_strlit("interface");
            assert("interface"@ =~= seq!['i', 'n', 't', 'e', 'r', 'f', 'a', 'c', 'e']);
            reveal_strlit("protected");
            assert("protected"@ =~= seq!['p', 'r', 'o', 't', 'e', 'c', 't', 'e', 'd']);
            reveal_strlit("implements");
            assert("implements"@ =~= seq!['i', 'm', 'p', 'l', 'e', 'm', 'e', 'n', 't', 's']);
            reveal_strlit("instanceof");
            assert("instanceof"@ =~= seq!['i', 'n', 's', 't', 'a', 'n', 'c', 'e', 'o', 'f']);
            reveal_strlit("class");
            assert("class"@ =~= seq!['c', 'l', 'a', 's', 's']);
            reveal_strlit("export");
            assert("export"@ =~= seq!['e', 'x', 'p', 'o', 'r', 't']);
            reveal_strlit("private");
            assert("private"@ =~= seq!['p', 'r', 'i', 'v', 'a', 't', 'e']);
            reveal_strlit("return");
            assert("return"@ =~= seq!['r', 'e', 't', 'u', 'r', 'n']);
        }
        Some(s.to_string())
    }
}

/// Every reserved-word token is found again from its own name: looking up
/// the name of a reserved word gives that word's token.
pub proof fn lemma_reserved_word_name_roundtrip(t: Token)
    requires
        spec_reserved_word_name(t) is Some,
    ensures
        spec_reserved_word_token(spec_reserved_word_name(t).unwrap()) == Some(t),
{
    match t {
        Token::As => {
            let n = seq!['a', 's'];
            assert(n.len() == 2 && n[0] == 'a' && n[1] == 's');
            assert(spec_reserved_word_token(n) == Some(Token::As));
        },
        Token::Do => {
            let n = seq!['d', 'o'];
            assert(n.len() == 2 && n[0] == 'd' && n[1] == 'o');
            assert(spec_reserved_word_token(n) == Some(Token::Do));
        },
        Token::If => {
            let n = seq!['i', 'f'];
            assert(n.len() == 2 && n[0] == 'i' && n[1] == 'f');
            assert(spec_reserved_word_token(n) == Some(Token::If));
        },
        Token::In => {
            let n = seq!['i', 'n'];
            assert(n.len() == 2 && n[0] == 'i' && n[1] == 'n');
            assert(spec_reserved_word_token(n) == Some(Token::In));
        },
        Token::Is => {
            let n = seq!['i', 's'];
            assert(n.len() == 2 && n[0] == 'i' && n[1] == 's');
            assert(spec_reserved_word_token(n) == Some(Token::Is));
        },
        Token::For => {
            let n = seq!['f', 'o', 'r'];
            assert(n.len() == 3 && n[0] == 'f' && n[1] == 'o' && n[2] == 'r');
            assert(spec_reserved_word_token(n) == Some(Token::For));
        },
        Token::New => {
            let n = seq!['n', 'e', 'w'];
            assert(n.len() == 3 && n[0] == 'n' && n[1] == 'e' && n[2] == 'w');
            assert(spec_reserved_word_token(n) == Some(Token::New));
        },
        Token::Try => {
            let n = seq!['t', 'r', 'y'];
            assert(n.len() == 3 && n[0] == 't' && n[1] == 'r' && n[2] == 'y');
            assert(spec_reserved_word_token(n) == Some(Token::Try));
        },
        Token::Use => {
            let n = seq!['u', 's', 'e'];
            assert(n.len() == 3 && n[0] == 'u' && n[1] == 's' && n[2] == 'e');
            assert(spec_reserved_word_token(n) == Some(Token::Use));
        },
        Token::Var => {
            let n = seq!['v', 'a', 'r'];
            assert(n.len() == 3 && n[0] == 'v' && n[1] == 'a' && n[2] == 'r');
            assert(spec_reserved_word_token(n) == Some(Token::Var));
        },
        Token::Case => {
            let n = seq!['c', 'a', 's', 'e'];
            assert(n.len() == 4 && n[0] == 'c' && n[1] == 'a' && n[2] == 's' && n[3] == 'e');
            assert(spec_reserved_word_token(n) == Some(Token::Case));
        },
        Token::Else => {
            let n = seq!['e', 'l', 's', 'e'];
            assert(n.len() == 4 && n[0] == 'e' && n[1] == 'l' && n[2] == 's' && n[3] == 'e');
            assert(spec_reserved_word_token(n) == Some(Token::Else));
        },
        Token::Null => {
            let n = seq!['n', 'u', 'l', 'l'];
            assert(n.len() == 4 && n[0] == 'n' && n[1] == 'u' && n[2] == 'l' && n[3] == 'l');
            assert(spec_reserved_word_token(n) == Some(Token::Null));
        },
        Token::This => {
            let n = seq!['t', 'h', 'i', 's'];
            assert(n.len() == 4 && n[0] == 't' && n[1] == 'h' && n[2] == 'i' && n[3] == 's');
            assert(spec_reserved_word_token(n) == Some(Token::This));
        },
        Token::True => {
            let n = seq!['t', 'r', 'u', 'e'];
            assert(n.len() == 4 && n[0] == 't' && n[1] == 'r' && n[2] == 'u' && n[3] == 'e');
            assert(spec_reserved_word_token(n) == Some(Token::True));
        },
        Token::Void => {
            let n = seq!['v', 'o', 'i', 'd'];
            assert(n.len() == 4 && n[0] == 'v' && n[1] == 'o' && n[2] == 'i' && n[3] == 'd');
            assert(spec_reserved_word_token(n) == Some(Token::Void));
        },
        Token::With => {
            let n = seq!['w', 'i', 't', 'h'];
            assert(n.len() == 4 && n[0] == 'w' && n[1] == 'i' && n[2] == 't' && n[3] == 'h');
            assert(spec_reserved_word_token(n) == Some(Token::With));
        },
        Token::Await => {
            let n = seq!['a', 'w', 'a', 'i', 't'];
            assert(n.len() == 5 && n[0] == 'a' && n[1] == 'w' && n[2] == 'a' && n[3] == 'i' && n[4] == 't');
            assert(spec_reserved_word_token(n) == Some(Token::Await));
        },
        Token::Break => {
            let n = seq!['b', 'r', 'e', 'a', 'k'];
            assert(n.len() == 5 && n[0] == 'b' && n[1] == 'r' && n[2] == 'e' && n[3] == 'a' && n[4] == 'k');
            assert(spec_reserved_word_token(n) == Some(Token::Break));
        },
        Token::Catch => {
            let n = seq!['c', 'a', 't', 'c', 'h'];
            assert(n.len() == 5 && n[0] == 'c' && n[1] == 'a' && n[2] == 't' && n[3] == 'c' && n[4] == 'h');
            assert(spec_reserved_word_token(n) == Some(Token::Catch));
        },
        Token::Const => {
            let n = seq!['c', 'o', 'n', 's', 't'];
            assert(n.len() == 5 && n[0] == 'c' && n[1] == 'o' && n[2] == 'n' && n[3] == 's' && n[4] == 't');
            assert(spec_reserved_word_token(n) == Some(Token::Const));
        },
        Token::False => {
            let n = seq!['f', 'a', 'l', 's', 'e'];
            assert(n.len() == 5 && n[0] == 'f' && n[1] == 'a' && n[2] == 'l' && n[3] == 's' && n[4] == 'e');
            assert(spec_reserved_word_token(n) == Some(Token::False));
        },
        Token::Super => {
            let n = seq!['s', 'u', 'p', 'e', 'r'];
            assert(n.len() == 5 && n[0] == 's' && n[1] == 'u' && n[2] == 'p' && n[3] == 'e' && n[4] == 'r');
            assert(spec_reserved_word_token(n) == Some(Token::Super));
        },
        Token::Throw => {
            let n = seq!['t', 'h', 'r', 'o', 'w'];
            assert(n.len() == 5 && n[0] == 't' && n[1] == 'h' && n[2] == 'r' && n[3] == 'o' && n[4] == 'w');
            assert(spec_reserved_word_token(n) == Some(Token::Throw));
        },
        Token::While => {
            let n = seq!['w', 'h', 'i', 'l', 'e'];
            assert(n.len() == 5 && n[0] == 'w' && n[1] == 'h' && n[2] == 'i' && n[3] == 'l' && n[4] == 'e');
            assert(spec_reserved_word_token(n) == Some(Token::While));
        },
        Token::Yield => {
            let n = seq!['y', 'i', 'e', 'l', 'd'];
            assert(n.len() == 5 && n[0] == 'y' && n[1] == 'i' && n[2] == 'e' && n[3] == 'l' && n[4] == 'd');
            assert(spec_reserved_word_token(n) == Some(Token::Yield));
        },
        Token::Delete => {
            let n = seq!['d', 'e', 'l', 'e', 't', 'e'];
            assert(n.len() == 6 && n[0] == 'd' && n[1] == 'e' && n[2] == 'l' && n[3] == 'e' && n[4] == 't' && n[5] == 'e');
            assert(spec_reserved_word_token(n) == Some(Token::Delete));
        },
        Token::Import => {
            let n = seq!['i', 'm', 'p', 'o', 'r', 't'];
            assert(n.len() == 6 && n[0] == 'i' && n[1] == 'm' && n[2] == 'p' && n[3] == 'o' && n[4] == 'r' && n[5] == 't');
            assert(spec_reserved_word_token(n) == Some(Token::Import));
        },
        Token::Public => {
            let n = seq!['p', 'u', 'b', 'l', 'i', 'c'];
            assert(n.len() == 6 && n[0] == 'p' && n[1] == 'u' && n[2] == 'b' && n[3] == 'l' && n[4] == 'i' && n[5] == 'c');
            assert(spec_reserved_word_token(n) == Some(Token::Public));
        },
        Token::Switch => {
            let n = seq!['s', 'w', 'i', 't', 'c', 'h'];
            assert(n.len() == 6 && n[0] == 's' && n[1] == 'w' && n[2] == 'i' && n[3] == 't' && n[4] == 'c' && n[5] == 'h');
            assert(spec_reserved_word_token(n) == Some(Token::Switch));
        },
        Token::Typeof => {
            let n = seq!['t', 'y', 'p', 'e', 'o', 'f'];
            assert(n.len() == 6 && n[0] == 't' && n[1] == 'y' && n[2] == 'p' && n[3] == 'e' && n[4] == 'o' && n[5] == 'f');
            assert(spec_reserved_word_token(n) == Some(Token::Typeof));
        },
        Token::Default => {
            let n = seq!['d', 'e', 'f', 'a', 'u', 'l', 't'];
            assert(n.len() == 7 && n[0] == 'd' && n[1] == 'e' && n[2] == 'f' && n[3] == 'a' && n[4] == 'u' && n[5] == 'l' && n[6] == 't');
            assert(spec_reserved_word_token(n) == Some(Token::Default));
        },
        Token::Extends => {
            let n = seq!['e', 'x', 't', 'e', 'n', 'd', 's'];
            assert(n.len() == 7 && n[0] == 'e' && n[1] == 'x' && n[2] == 't' && n[3] == 'e' && n[4] == 'n' && n[5] == 'd' && n[6] == 's');
            assert(spec_reserved_word_token(n) == Some(Token::Extends));
        },
        Token::Finally => {
            let n = seq!['f', 'i', 'n', 'a', 'l', 'l', 'y'];
            assert(n.len() == 7 && n[0] == 'f' && n[1] == 'i' && n[2] == 'n' && n[3] == 'a' && n[4] == 'l' && n[5] == 'l' && n[6] == 'y');
            assert(spec_reserved_word_token(n) == Some(Token::Finally));
        },
        Token::Package => {
            let n = seq!['p', 'a', 'c', 'k', 'a', 'g', 'e'];
            assert(n.len() == 7 && n[0] == 'p' && n[1] == 'a' && n[2] == 'c' && n[3] == 'k' && n[4] == 'a' && n[5] == 'g' && n[6] == 'e');
            assert(spec_reserved_word_token(n) == Some(Token::Package));
        },
        Token::Continue => {
            let n = seq!['c', 'o', 'n', 't', 'i', 'n', 'u', 'e'];
            assert(n.len() == 8 && n[0] == 'c' && n[1] == 'o' && n[2] == 'n' && n[3] == 't' && n[4] == 'i' && n[5] == 'n' && n[6] == 'u' && n[7] == 'e');
            assert(spec_reserved_word_token(n) == Some(Token::Continue));
        },
        Token::Function => {
            let n = seq!['f', 'u', 'n', 'c', 't', 'i', 'o', 'n'];
            assert(n.len() == 8 && n[0] == 'f' && n[1] == 'u' && n[2] == 'n' && n[3] == 'c' && n[4] == 't' && n[5] == 'i' && n[6] == 'o' && n[7] == 'n');
            assert(spec_reserved_word_token(n) == Some(Token::Function));
        },
        Token::Internal => {
            let n = seq!['i', 'n', 't', 'e', 'r', 'n', 'a', 'l'];
            assert(n.len() == 8 && n[0] == 'i' && n[1] == 'n' && n[2] == 't' && n[3] == 'e' && n[4] == 'r' && n[5] == 'n' && n[6] == 'a' && n[7] == 'l');
            assert(spec_reserved_word_token(n) == Some(Token::Internal));
        },
        Token::Interface => {
            let n = seq!['i', 'n', 't', 'e', 'r', 'f', 'a', 'c', 'e'];
            assert(n.len() == 9 && n[0] == 'i' && n[1] == 'n' && n[2] == 't' && n[3] == 'e' && n[4] == 'r' && n[5] == 'f' && n[6] == 'a' && n[7] == 'c' && n[8] == 'e');
            assert(spec_reserved_word_token(n) == Some(Token::Interface));
        },
        Token::Protected => {
            let n = seq!['p', 'r', 'o', 't', 'e', 'c', 't', 'e', 'd'];
            assert(n.len() == 9 && n[0] == 'p' && n[1] == 'r' && n[2] == 'o' && n[3] == 't' && n[4] == 'e' && n[5] == 'c' && n[6] == 't' && n[7] == 'e' && n[8] == 'd');
            assert(spec_reserved_word_token(n) == Some(Token::Protected));
        },
        Token::Implements => {
            let n = seq!['i', 'm', 'p', 'l', 'e', 'm', 'e', 'n', 't', 's'];
            assert(n.len() == 10 && n[0] == 'i' && n[1] == 'm' && n[2] == 'p' && n[3] == 'l' && n[4] == 'e' && n[5] == 'm' && n[6] == 'e' && n[7] == 'n' && n[8] == 't' && n[9] == 's');
            assert(spec_reserved_word_token(n) == Some(Token::Implements));
        },
        Token::Instanceof => {
            let n = seq!['i', 'n', 's', 't', 'a', 'n', 'c', 'e', 'o', 'f'];
            assert(n.len() == 10 && n[0] == 'i' && n[1] == 'n' && n[2] == 's' && n[3] == 't' && n[4] == 'a' && n[5] == 'n' && n[6] == 'c' && n[7] == 'e' && n[8] == 'o' && n[9] == 'f');
            assert(spec_reserved_word_token(n) == Some(Token::Instanceof));
        },
        Token::Class => {
            let n = seq!['c', 'l', 'a', 's', 's'];
            assert(n.len() == 5 && n[0] == 'c' && n[1] == 'l' && n[2] == 'a' && n[3] == 's' && n[4] == 's');
            assert(spec_reserved_word_token(n) == Some(Token::Class));
        },
        Token::Export => {
            let n = seq!['e', 'x', 'p', 'o', 'r', 't'];
            assert(n.len() == 6 && n[0] == 'e' && n[1] == 'x' && n[2] == 'p' && n[3] == 'o' && n[4] == 'r' && n[5] == 't');
            assert(spec_reserved_word_token(n) == Some(Token::Export));
        },
        Token::Private => {
            let n = seq!['p', 'r', 'i', 'v', 'a', 't', 'e'];
            assert(n.len() == 7 && n[0] == 'p' && n[1] == 'r' && n[2] == 'i' && n[3] == 'v' && n[4] == 'a' && n[5] == 't' && n[6] == 'e');
            assert(spec_reserved_word_token(n) == Some(Token::Private));
        },
        Token::Return => {
            let n = seq!['r', 'e', 't', 'u', 'r', 'n'];
            assert(n.len() == 6 && n[0] == 'r' && n[1] == 'e' && n[2] == 't' && n[3] == 'u' && n[4] == 'r' && n[5] == 'n');
            assert(spec_reserved_word_token(n) == Some(Token::Return));
        },
        _ => {},
    }
}

/// Reading a reserved word back from its token gives the same name.
pub proof fn lemma_reserved_word_roundtrip(name: Seq<char>)
    requires
        spec_reserved_word_token(name) is Some,
    ensures
        spec_reserved_word_name(spec_reserved_word_token(name).unwrap()) == Some(name),
{
}

} // verus!

verus! {

/// How a token is named in diagnostics: the text of a punctuator or of a
/// reserved word, or a description of the token's kind.
pub open spec fn token_display(t: Token) -> Seq<char> {
    match t {
        Token::Eof => seq!['e', 'n', 'd', ' ', 'o', 'f', ' ', 'p', 'r', 'o', 'g', 'r', 'a', 'm'],
        Token::Identifier(_) => seq!['i', 'd', 'e', 'n', 't', 'i', 'f', 'i', 'e', 'r'],
        Token::StringLiteral(_) => seq!['s', 't', 'r', 'i', 'n', 'g'],
        Token::NumericLiteral(_) => seq!['n', 'u', 'm', 'b', 'e', 'r'],
        Token::RegExpLiteral { .. } => seq!['r', 'e', 'g', 'u', 'l', 'a', 'r', ' ', 'e', 'x', 'p', 'r', 'e', 's', 's', 'i', 'o', 'n'],
        Token::XmlWhitespace => seq!['X', 'M', 'L', ' ', 'w', 'h', 'i', 't', 'e', 's', 'p', 'a', 'c', 'e'],
        Token::XmlLtSlash => seq!['<', '/'],
        Token::XmlSlashGt => seq!['/', '>'],
        Token::XmlText(_) => seq!['X', 'M', 'L', ' ', 't', 'e', 'x', 't'],
        Token::XmlName(_) => seq!['X', 'M', 'L', ' ', 'n', 'a', 'm', 'e'],
        Token::XmlMarkup(_) => seq!['X', 'M', 'L', ' ', 'm', 'a', 'r', 'k', 'u', 'p'],
        Token::XmlAttributeValue(_) => seq!['X', 'M', 'L', ' ', 'a', 't', 't', 'r', 'i', 'b', 'u', 't', 'e', ' ', 'v', 'a', 'l', 'u', 'e'],
        _ => if punctuator_spelling(t).len() > 0 {
            punctuator_spelling(t)
        } else {
            spec_reserved_word_name(t).unwrap()
        },
    }
}

impl Token {
    /// How this token is named in diagnostics.
    pub fn to_string(&self) -> (r: String)
        ensures
            r@ == token_display(*self),
    {
        let s: &str = match self {
            Token::Eof => "end of program",
            Token::Identifier(_) => "identifier",
            Token::StringLiteral(_) => "string",
            Token::NumericLiteral(_) => "number",
            Token::RegExpLiteral { .. } => "regular expression",
            Token::XmlWhitespace => "XML whitespace",
            Token::XmlLtSlash => "</",
            Token::XmlSlashGt => "/>",
            Token::XmlText(_) => "XML text",
            Token::XmlName(_) => "XML name",
            Token::XmlMarkup(_) => "XML markup",
            Token::XmlAttributeValue(_) => "XML attribute value",
            Token::Dot => ".",
            Token::Descendants => "..",
            Token::Ellipsis => "...",
            Token::Comma => ",",
            Token::Semicolon => ";",
            Token::Colon => ":",
            Token::ColonColon => "::",
            Token::LeftParen => "(",
            Token::RightParen => ")",
            Token::LeftBracket => "[",
            Token::RightBracket => "]",
            Token::LeftBrace => "{",
            Token::RightBrace => "}",
            Token::Attribute => "@",
            Token::Question => "?",
            Token::OptionalChaining => "?.",
            Token::Exclamation => "!",
            Token::BitwiseNot => "~",
            Token::Plus => "+",
            Token::Minus => "-",
            Token::Times => "*",
            Token::Div => "/",
            Token::Remainder => "%",
            Token::Power => "**",
            Token::LeftShift => "<<",
            Token::RightShift => ">>",
            Token::UnsignedRightShift => ">>>",
            Token::Lt => "<",
            Token::Gt => ">",
            Token::Le => "<=",
            Token::Ge => ">=",
            Token::Equals => "==",
            Token::NotEquals => "!=",
            Token::StrictEquals => "===",
            Token::StrictNotEquals => "!==",
            Token::BitwiseAnd => "&",
            Token::BitwiseXor => "^",
            Token::BitwiseOr => "|",
            Token::LogicalAnd => "&&",
            Token::LogicalXor => "^^",
            Token::LogicalOr => "||",
            Token::NullCoalescing => "??",
            Token::Assign => "=",
            Token::AddAssign => "+=",
            Token::SubtractAssign => "-=",
            Token::MultiplyAssign => "*=",
            Token::DivideAssign => "/=",
            Token::RemainderAssign => "%=",
            Token::PowerAssign => "**=",
            Token::LeftShiftAssign => "<<=",
            Token::RightShiftAssign => ">>=",
            Token::UnsignedRightShiftAssign => ">>>=",
            Token::BitwiseAndAssign => "&=",
            Token::BitwiseXorAssign => "^=",
            Token::BitwiseOrAssign => "|=",
            Token::LogicalAndAssign => "&&=",
            Token::LogicalXorAssign => "^^=",
            Token::LogicalOrAssign => "||=",
            Token::NullCoalescingAssign => "??=",
            Token::Increment => "++",
            Token::Decrement => "--",
            Token::FatArrow => "=>",
            Token::As => "as",
            Token::Do => "do",
            Token::If => "if",
            Token::In => "in",
            Token::Is => "is",
            Token::For => "for",
            Token::New => "new",
            Token::Try => "try",
            Token::Use => "use",
            Token::Var => "var",
            Token::Case => "case",
            Token::Else => "else",
            Token::Null => "null",
            Token::This => "this",
            Token::True => "true",
            Token::Void => "void",
            Token::With => "with",
            Token::Await => "await",
            Token::Break => "break",
            Token::Catch => "catch",
            Token::Const => "const",
            Token::False => "false",
            Token::Super => "super",
            Token::Throw => "throw",
            Token::While => "while",
            Token::Yield => "yield",
            Token::Delete => "delete",
            Token::Import => "import",
            Token::Public => "public",
            Token::Switch => "switch",
            Token::Typeof => "typeof",
            Token::Default => "default",
            Token::Extends => "extends",
            Token::Finally => "finally",
            Token::Package => "package",
            Token::Continue => "continue",
            Token::Function => "function",
            Token::Internal => "internal",
            Token::Interface => "interface",
            Token::Protected => "protected",
            Token::Implements => "implements",
            Token::Instanceof => "instanceof",
            Token::Class => "class",
            Token::Export => "export",
            Token::Private => "private",
            Token::Return => "return",
        };
        proof {
            reveal_strlit("!");
            assert("!"@ =~= seq!['!']);
            reveal_strlit("!=");
            assert("!="@ =~= seq!['!', '=']);
            reveal_strlit("!==");
            assert("!=="@ =~= seq!['!', '=', '=']);
            reveal_strlit("%");
            assert("%"@ =~= seq!['%']);
            reveal_strlit("%=");
            assert("%="@ =~= seq!['%', '=']);
            reveal_strlit("&");
            assert("&"@ =~= seq!['&']);
            reveal_strlit("&&");
            assert("&&"@ =~= seq!['&', '&']);
            reveal_strlit("&&=");
            assert("&&="@ =~= seq!['&', '&', '=']);
            reveal_strlit("&=");
            assert("&="@ =~= seq!['&', '=']);
            reveal_strlit("(");
            assert("("@ =~= seq!['(']);
            reveal_strlit(")");
            assert(")"@ =~= seq![')']);
            reveal_strlit("*");
            assert("*"@ =~= seq!['*']);
            reveal_strlit("**");
            assert("**"@ =~= seq!['*', '*']);
            reveal_strlit("**=");
            assert("**="@ =~= seq!['*', '*', '=']);
            reveal_strlit("*=");
            assert("*="@ =~= seq!['*', '=']);
            reveal_strlit("+");
            assert("+"@ =~= seq!['+']);
            reveal_strlit("++");
            assert("++"@ =~= seq!['+', '+']);
            reveal_strlit("+=");
            assert("+="@ =~= seq!['+', '=']);
            reveal_strlit(",");
            assert(","@ =~= seq![',']);
            reveal_strlit("-");
            assert("-"@ =~= seq!['-']);
            reveal_strlit("--");
            assert("--"@ =~= seq!['-', '-']);
            reveal_strlit("-=");
            assert("-="@ =~= seq!['-', '=']);
            reveal_strlit(".");
            assert("."@ =~= seq!['.']);
            reveal_strlit("..");
            assert(".."@ =~= seq!['.', '.']);
            reveal_strlit("...");
            assert("..."@ =~= seq!['.', '.', '.']);
            reveal_strlit("/");
            assert("/"@ =~= seq!['/']);
            reveal_strlit("/=");
            assert("/="@ =~= seq!['/', '=']);
            reveal_strlit("/>");
            assert("/>"@ =~= seq!['/', '>']);
            reveal_strlit(":");
            assert(":"@ =~= seq![':']);
            reveal_strlit("::");
            assert("::"@ =~= seq![':', ':']);
            reveal_strlit(";");
            assert(";"@ =~= seq![';']);
            reveal_strlit("<");
            assert("<"@ =~= seq!['<']);
            reveal_strlit("</");
            assert("</"@ =~= seq!['<', '/']);
            reveal_strlit("<<");
            assert("<<"@ =~= seq!['<', '<']);
            reveal_strlit("<<=");
            assert("<<="@ =~= seq!['<', '<', '=']);
            reveal_strlit("<=");
            assert("<="@ =~= seq!['<', '=']);
            reveal_strlit("=");
            assert("="@ =~= seq!['=']);
            reveal_strlit("==");
            assert("=="@ =~= seq!['=', '=']);
            reveal_strlit("===");
            assert("==="@ =~= seq!['=', '=', '=']);
            reveal_strlit("=>");
            assert("=>"@ =~= seq!['=', '>']);
            reveal_strlit(">");
            assert(">"@ =~= seq!['>']);
            reveal_strlit(">=");
            assert(">="@ =~= seq!['>', '=']);
            reveal_strlit(">>");
            assert(">>"@ =~= seq!['>', '>']);
            reveal_strlit(">>=");
            assert(">>="@ =~= seq!['>', '>', '=']);
            reveal_strlit(">>>");
            assert(">>>"@ =~= seq!['>', '>', '>']);
            reveal_strlit(">>>=");
            assert(">>>="@ =~= seq!['>', '>', '>', '=']);
            reveal_strlit("?");
            assert("?"@ =~= seq!['?']);
            reveal_strlit("?.");
            assert("?."@ =~= seq!['?', '.']);
            reveal_strlit("??");
            assert("??"@ =~= seq!['?', '?']);
            reveal_strlit("??=");
            assert("??="@ =~= seq!['?', '?', '=']);
            reveal_strlit("@");
            assert("@"@ =~= seq!['@']);
            reveal_strlit("XML attribute value");
            assert("XML attribute value"@ =~= seq!['X', 'M', 'L', ' ', 'a', 't', 't', 'r', 'i', 'b', 'u', 't', 'e', ' ', 'v', 'a', 'l', 'u', 'e']);
            reveal_strlit("XML markup");
            assert("XML markup"@ =~= seq!['X', 'M', 'L', ' ', 'm', 'a', 'r', 'k', 'u', 'p']);
            reveal_strlit("XML name");
            assert("XML name"@ =~= seq!['X', 'M', 'L', ' ', 'n', 'a', 'm', 'e']);
            reveal_strlit("XML text");
            assert("XML text"@ =~= seq!['X', 'M', 'L', ' ', 't', 'e', 'x', 't']);
            reveal_strlit("XML whitespace");
            assert("XML whitespace"@ =~= seq!['X', 'M', 'L', ' ', 'w', 'h', 'i', 't', 'e', 's', 'p', 'a', 'c', 'e']);
            reveal_strlit("[");
            assert("["@ =~= seq!['[']);
            reveal_strlit("]");
            assert("]"@ =~= seq![']']);
            reveal_strlit("^");
            assert("^"@ =~= seq!['^']);
            reveal_strlit("^=");
            assert("^="@ =~= seq!['^', '=']);
            reveal_strlit("^^");
            assert("^^"@ =~= seq!['^', '^']);
            reveal_strlit("^^=");
            assert("^^="@ =~= seq!['^', '^', '=']);
            reveal_strlit("as");
            assert("as"@ =~= seq!['a', 's']);
            reveal_strlit("await");
            assert("await"@ =~= seq!['a', 'w', 'a', 'i', 't']);
            reveal_strlit("break");
            assert("break"@ =~= seq!['b', 'r', 'e', 'a', 'k']);
            reveal_strlit("case");
            assert("case"@ =~= seq!['c', 'a', 's', 'e']);
            reveal_strlit("catch");
            assert("catch"@ =~= seq!['c', 'a', 't', 'c', 'h']);
            reveal_strlit("class");
            assert("class"@ =~= seq!['c', 'l', 'a', 's', 's']);
            reveal_strlit("const");
            assert("const"@ =~= seq!['c', 'o', 'n', 's', 't']);
            reveal_strlit("continue");
            assert("continue"@ =~= seq!['c', 'o', 'n', 't', 'i', 'n', 'u', 'e']);
            reveal_strlit("default");
            assert("default"@ =~= seq!['d', 'e', 'f', 'a', 'u', 'l', 't']);
            reveal_strlit("delete");
            assert("delete"@ =~= seq!['d', 'e', 'l', 'e', 't', 'e']);
            reveal_strlit("do");
            assert("do"@ =~= seq!['d', 'o']);
            reveal_strlit("else");
            assert("else"@ =~= seq!['e', 'l', 's', 'e']);
            reveal_strlit("end of program");
            assert("end of program"@ =~= seq!['e', 'n', 'd', ' ', 'o', 'f', ' ', 'p', 'r', 'o', 'g', 'r', 'a', 'm']);
            reveal_strlit("export");
            assert("export"@ =~= seq!['e', 'x', 'p', 'o', 'r', 't']);
            reveal_strlit("extends");
            assert("extends"@ =~= seq!['e', 'x', 't', 'e', 'n', 'd', 's']);
            reveal_strlit("false");
            assert("false"@ =~= seq!['f', 'a', 'l', 's', 'e']);
            reveal_strlit("finally");
            assert("finally"@ =~= seq!['f', 'i', 'n', 'a', 'l', 'l', 'y']);
            reveal_strlit("for");
            assert("for"@ =~= seq!['f', 'o', 'r']);
            reveal_strlit("function");
            assert("function"@ =~= seq!['f', 'u', 'n', 'c', 't', 'i', 'o', 'n']);
            reveal_strlit("identifier");
            assert("identifier"@ =~= seq!['i', 'd', 'e', 'n', 't', 'i', 'f', 'i', 'e', 'r']);
            reveal_strlit("if");
            assert("if"@ =~= seq!['i', 'f']);
            reveal_strlit("implements");
            assert("implements"@ =~= seq!['i', 'm', 'p', 'l', 'e', 'm', 'e', 'n', 't', 's']);
            reveal_strlit("import");
            assert("import"@ =~= seq!['i', 'm', 'p', 'o', 'r', 't']);
            reveal_strlit("in");
            assert("in"@ =~= seq!['i', 'n']);
            reveal_strlit("instanceof");
            assert("instanceof"@ =~= seq!['i', 'n', 's', 't', 'a', 'n', 'c', 'e', 'o', 'f']);
            reveal_strlit("interface");
            assert("interface"@ =~= seq!['i', 'n', 't', 'e', 'r', 'f', 'a', 'c', 'e']);
            reveal_strlit("internal");
            assert("internal"@ =~= seq!['i', 'n', 't', 'e', 'r', 'n', 'a', 'l']);
            reveal_strlit("is");
            assert("is"@ =~= seq!['i', 's']);
            reveal_strlit("new");
            assert("new"@ =~= seq!['n', 'e', 'w']);
            reveal_strlit("null");
            assert("null"@ =~= seq!['n', 'u', 'l', 'l']);
            reveal_strlit("number");
            assert("number"@ =~= seq!['n', 'u', 'm', 'b', 'e', 'r']);
            reveal_strlit("package");
            assert("package"@ =~= seq!['p', 'a', 'c', 'k', 'a', 'g', 'e']);
            reveal_strlit("private");
            assert("private"@ =~= seq!['p', 'r', 'i', 'v', 'a', 't', 'e']);
            reveal_strlit("protected");
            assert("protected"@ =~= seq!['p', 'r', 'o', 't', 'e', 'c', 't', 'e', 'd']);
            reveal_strlit("public");
            assert("public"@ =~= seq!['p', 'u', 'b', 'l', 'i', 'c']);
            reveal_strlit("regular expression");
            assert("regular expression"@ =~= seq!['r', 'e', 'g', 'u', 'l', 'a', 'r', ' ', 'e', 'x', 'p', 'r', 'e', 's', 's', 'i', 'o', 'n']);
            reveal_strlit("return");
            assert("return"@ =~= seq!['r', 'e', 't', 'u', 'r', 'n']);
            reveal_strlit("string");
            assert("string"@ =~= seq!['s', 't', 'r', 'i', 'n', 'g']);
            reveal_strlit("super");
            assert("super"@ =~= seq!['s', 'u', 'p', 'e', 'r']);
            reveal_strlit("switch");
            assert("switch"@ =~= seq!['s', 'w', 'i', 't', 'c', 'h']);
            reveal_strlit("this");
            assert("this"@ =~= seq!['t', 'h', 'i', 's']);
            reveal_strlit("throw");
            assert("throw"@ =~= seq!['t', 'h', 'r', 'o', 'w']);
            reveal_strlit("true");
            assert("true"@ =~= seq!['t', 'r', 'u', 'e']);
            reveal_strlit("try");
            assert("try"@ =~= seq!['t', 'r', 'y']);
            reveal_strlit("typeof");
            assert("typeof"@ =~= seq!['t', 'y', 'p', 'e', 'o', 'f']);
            reveal_strlit("use");
            assert("use"@ =~= seq!['u', 's', 'e']);
            reveal_strlit("var");
            assert("var"@ =~= seq!['v', 'a', 'r']);
            reveal_strlit("void");
            assert("void"@ =~= seq!['v', 'o', 'i', 'd']);
            reveal_strlit("while");
            assert("while"@ =~= seq!['w', 'h', 'i', 'l', 'e']);
            reveal_strlit("with");
            assert("with"@ =~= seq!['w', 'i', 't', 'h']);
            reveal_strlit("yield");
            assert("yield"@ =~= seq!['y', 'i', 'e', 'l', 'd']);
            reveal_strlit("{");
            assert("{"@ =~= seq!['{']);
            reveal_strlit("|");
            assert("|"@ =~= seq!['|']);
            reveal_strlit("|=");
            assert("|="@ =~= seq!['|', '=']);
            reveal_strlit("||");
            assert("||"@ =~= seq!['|', '|']);
            reveal_strlit("||=");
            assert("||="@ =~= seq!['|', '|', '=']);
            reveal_strlit("}");
            assert("}"@ =~= seq!['}']);
            reveal_strlit("~");
            assert("~"@ =~= seq!['~']);
        }
        s.to_string()
    }
}

} // verus!
