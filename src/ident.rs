//! Identifier mangling: from managed member names and descriptors to native
//! identifiers.

use vstd::prelude::*;
use crate::text::{debug_quoted, debug_str};

verus! {

pub open spec fn is_ascii_letter(c: char) -> bool {
    ('a' <= c && c <= 'z') || ('A' <= c && c <= 'Z')
}

pub open spec fn is_ascii_digit(c: char) -> bool {
    '0' <= c && c <= '9'
}

pub open spec fn is_ident_char(c: char) -> bool {
    is_ascii_letter(c) || is_ascii_digit(c) || c == '_'
}

/// A non-empty run of ASCII letters, digits and underscores that does not
/// start with a digit.
pub open spec fn is_identifier(s: Seq<char>) -> bool {
    &&& s.len() > 0
    &&& !is_ascii_digit(s[0])
    &&& forall|i: int| 0 <= i < s.len() ==> is_ident_char(#[trigger] s[i])
}

/// Reserved words of the target language that cannot be used verbatim.
pub open spec fn is_keyword(s: Seq<char>) -> bool {
    ||| s == "_"@ || s == "as"@ || s == "break"@ || s == "const"@ || s == "continue"@
    ||| s == "crate"@ || s == "else"@ || s == "enum"@ || s == "false"@ || s == "fn"@
    ||| s == "for"@ || s == "if"@ || s == "impl"@ || s == "in"@ || s == "let"@
    ||| s == "loop"@ || s == "match"@ || s == "mod"@ || s == "move"@ || s == "mut"@
    ||| s == "pub"@ || s == "ref"@ || s == "return"@ || s == "self"@ || s == "Self"@
    ||| s == "static"@ || s == "struct"@ || s == "super"@ || s == "trait"@ || s == "true"@
    ||| s == "type"@ || s == "unsafe"@ || s == "use"@ || s == "where"@ || s == "while"@
    ||| s == "async"@ || s == "await"@ || s == "dyn"@ || s == "abstract"@ || s == "become"@
    ||| s == "box"@ || s == "do"@ || s == "macro"@ || s == "override"@ || s == "priv"@
    ||| s == "typeof"@ || s == "unsized"@ || s == "virtual"@ || s == "yield"@ || s == "try"@
}

/// The native spelling of a managed identifier: kept verbatim, a reserved
/// word gets a trailing underscore, and a name outside the identifier grammar
/// has no spelling.
pub open spec fn rust_id_spec(s: Seq<char>) -> Option<Seq<char>> {
    if !is_identifier(s) {
        None
    } else if is_keyword(s) {
        Some(s + "_"@)
    } else {
        Some(s)
    }
}

pub fn str_eq(a: &str, b: &str) -> (r: bool)
    ensures
        r == (a@ == b@),
{
    let n = a.unicode_len();
    if n != b.unicode_len() {
        return false;
    }
    let mut i: usize = 0;
    while i < n
        invariant
            n == a@.len(),
            n == b@.len(),
            0 <= i <= n,
            forall|k: int| 0 <= k < i ==> a@[k] == b@[k],
        decreases n - i,
    {
        if a.get_char(i) != b.get_char(i) {
            return false;
        }
        i = i + 1;
    }
    assert(a@ =~= b@);
    true
}

pub fn is_keyword_str(s: &str) -> (r: bool)
    ensures
        r == is_keyword(s@),
{
    str_eq(s, "_") || str_eq(s, "as") || str_eq(s, "break") || str_eq(s, "const") || str_eq(s, "continue")
    || str_eq(s, "crate") || str_eq(s, "else") || str_eq(s, "enum") || str_eq(s, "false") || str_eq(s, "fn")
    || str_eq(s, "for") || str_eq(s, "if") || str_eq(s, "impl") || str_eq(s, "in") || str_eq(s, "let")
    || str_eq(s, "loop") || str_eq(s, "match") || str_eq(s, "mod") || str_eq(s, "move") || str_eq(s, "mut")
    || str_eq(s, "pub") || str_eq(s, "ref") || str_eq(s, "return") || str_eq(s, "self") || str_eq(s, "Self")
    || str_eq(s, "static") || str_eq(s, "struct") || str_eq(s, "super") || str_eq(s, "trait") || str_eq(s, "true")
    || str_eq(s, "type") || str_eq(s, "unsafe") || str_eq(s, "use") || str_eq(s, "where") || str_eq(s, "while")
    || str_eq(s, "async") || str_eq(s, "await") || str_eq(s, "dyn") || str_eq(s, "abstract") || str_eq(s, "become")
    || str_eq(s, "box") || str_eq(s, "do") || str_eq(s, "macro") || str_eq(s, "override") || str_eq(s, "priv")
    || str_eq(s, "typeof") || str_eq(s, "unsized") || str_eq(s, "virtual") || str_eq(s, "yield") || str_eq(s, "try")
}

pub fn is_identifier_str(s: &str) -> (r: bool)
    ensures
        r == is_identifier(s@),
{
    let n = s.unicode_len();
    if n == 0 {
        return false;
    }
    let c0 = s.get_char(0);
    if '0' <= c0 && c0 <= '9' {
        return false;
    }
    let mut i: usize = 0;
    while i < n
        invariant
            n == s@.len(),
            0 <= i <= n,
            forall|k: int| 0 <= k < i ==> is_ident_char(#[trigger] s@[k]),
        decreases n - i,
    {
        let c = s.get_char(i);
        if !(('a' <= c && c <= 'z') || ('A' <= c && c <= 'Z') || ('0' <= c && c <= '9') || c == '_') {
            return false;
        }
        i = i + 1;
    }
    true
}

/// The message of the error for an identifier with no native spelling.
pub open spec fn no_spelling_message(id: Seq<char>) -> Seq<char> {
    "Unable to add_struct(): java identifier "@ + debug_quoted(id) + " has no rust equivalent (yet?)"@
}

/// The native spelling of a managed identifier, or an error that names it.
pub fn rust_id(id: &str) -> (r: Result<String, String>)
    ensures
        match r {
            Ok(s) => rust_id_spec(id@) == Some(s@),
            Err(e) => rust_id_spec(id@) is None && e@ == no_spelling_message(id@),
        },
{
    if !is_identifier_str(id) {
        let mut e = String::from_str("Unable to add_struct(): java identifier ");
        e.append(debug_str(id).as_str());
        e.append(" has no rust equivalent (yet?)");
        Err(e)
    } else if is_keyword_str(id) {
        let mut s = String::from_str(id);
        s.append("_");
        Ok(s)
    } else {
        Ok(String::from_str(id))
    }
}

/// Whether a descriptor character has a spelling inside an identifier.
pub open spec fn encodable(c: char) -> bool {
    is_ascii_letter(c) || is_ascii_digit(c) || c == '/' || c == '_' || c == ';' || c == '['
        || c == '(' || c == ')' || c == '$'
}

/// The spelling of one descriptor character: a letter or digit stands for
/// itself, every other character becomes an underscore and a digit of its own.
pub open spec fn code_of(c: char) -> Seq<char> {
    if c == '/' {
        seq!['_', '0']
    } else if c == '_' {
        seq!['_', '1']
    } else if c == ';' {
        seq!['_', '2']
    } else if c == '[' {
        seq!['_', '3']
    } else if c == '(' {
        seq!['_', '4']
    } else if c == ')' {
        seq!['_', '5']
    } else if c == '$' {
        seq!['_', '6']
    } else {
        seq![c]
    }
}

pub open spec fn all_encodable(s: Seq<char>) -> bool {
    forall|i: int| 0 <= i < s.len() ==> encodable(#[trigger] s[i])
}

pub open spec fn flat_code(s: Seq<char>) -> Seq<char>
    decreases s.len(),
{
    if s.len() == 0 {
        Seq::empty()
    } else {
        code_of(s[0]) + flat_code(s.drop_first())
    }
}

/// A descriptor spelled as identifier characters, when every character has a
/// spelling.
pub open spec fn encode_descriptor(s: Seq<char>) -> Option<Seq<char>> {
    if all_encodable(s) {
        Some(flat_code(s))
    } else {
        None
    }
}

proof fn lemma_code_head(a: char, b: char, ra: Seq<char>, rb: Seq<char>)
    requires
        encodable(a),
        encodable(b),
        code_of(a) + ra == code_of(b) + rb,
    ensures
        a == b,
        ra == rb,
{
    let ca = code_of(a);
    let cb = code_of(b);
    assert((ca + ra)[0] == ca[0]);
    assert((cb + rb)[0] == cb[0]);
    if ca.len() == 2 {
        assert((ca + ra)[1] == ca[1]);
        assert((cb + rb)[1] == cb[1]);
    }
    assert(a == b);
    assert(ra =~= (ca + ra).subrange(ca.len() as int, (ca + ra).len() as int));
    assert(rb =~= (cb + rb).subrange(cb.len() as int, (cb + rb).len() as int));
}

/// Distinct descriptors never share a spelling.
pub proof fn lemma_encode_injective(a: Seq<char>, b: Seq<char>)
    requires
        encode_descriptor(a) is Some,
        encode_descriptor(a) == encode_descriptor(b),
    ensures
        a == b,
    decreases a.len(),
{
    if a.len() == 0 {
        if b.len() > 0 {
            assert(flat_code(b).len() > 0);
        }
        assert(a =~= b);
    } else {
        if b.len() == 0 {
            assert(flat_code(a).len() > 0);
        }
        assert(encodable(a[0]));
        assert(encodable(b[0]));
        lemma_code_head(a[0], b[0], flat_code(a.drop_first()), flat_code(b.drop_first()));
        assert(all_encodable(a.drop_first()));
        assert(all_encodable(b.drop_first()));
        lemma_encode_injective(a.drop_first(), b.drop_first());
        assert(a =~= seq![a[0]] + a.drop_first());
        assert(b =~= seq![b[0]] + b.drop_first());
    }
}

fn code_str(c: char) -> (r: &'static str)
    requires
        encodable(c),
        !(is_ascii_letter(c) || is_ascii_digit(c)),
    ensures
        r@ == code_of(c),
{
    proof {
        reveal_strlit("_0");
        reveal_strlit("_1");
        reveal_strlit("_2");
        reveal_strlit("_3");
        reveal_strlit("_4");
        reveal_strlit("_5");
        reveal_strlit("_6");
    }
    if c == '/' {
        "_0"
    } else if c == '_' {
        "_1"
    } else if c == ';' {
        "_2"
    } else if c == '[' {
        "_3"
    } else if c == '(' {
        "_4"
    } else if c == ')' {
        "_5"
    } else {
        "_6"
    }
}

pub fn encode_descriptor_str(desc: &str) -> (r: Option<String>)
    ensures
        r matches Some(s) ==> encode_descriptor(desc@) == Some(s@),
        r is None ==> encode_descriptor(desc@) is None,
{
    let n = desc.unicode_len();
    let mut i: usize = 0;
    while i < n
        invariant
            n == desc@.len(),
            0 <= i <= n,
            forall|k: int| 0 <= k < i ==> encodable(#[trigger] desc@[k]),
        decreases n - i,
    {
        let c = desc.get_char(i);
        if !(('a' <= c && c <= 'z') || ('A' <= c && c <= 'Z') || ('0' <= c && c <= '9') || c == '/'
            || c == '_' || c == ';' || c == '[' || c == '(' || c == ')' || c == '$') {
            return None;
        }
        i = i + 1;
    }
    let mut out = String::new();
    let mut j: usize = n;
    assert(desc@.subrange(n as int, n as int) =~= Seq::<char>::empty());
    while j > 0
        invariant
            n == desc@.len(),
            0 <= j <= n,
            all_encodable(desc@),
            out@ == flat_code(desc@.subrange(j as int, n as int)),
        decreases j,
    {
        let c = desc.get_char(j - 1);
        let mut piece = if ('a' <= c && c <= 'z') || ('A' <= c && c <= 'Z') || ('0' <= c && c <= '9') {
            String::from_str(desc.substring_char(j - 1, j))
        } else {
            String::from_str(code_str(c))
        };
        proof {
            let t = desc@.subrange(j - 1, n as int);
            assert(t[0] == c);
            assert(t.drop_first() =~= desc@.subrange(j as int, n as int));
            assert(desc@.subrange(j - 1, j as int) =~= seq![c]);
        }
        piece.append(out.as_str());
        out = piece;
        j = j - 1;
    }
    assert(desc@.subrange(0, n as int) =~= desc@);
    Some(out)
}


/// How a method name is turned into an identifier.
#[derive(Clone, Copy, Debug, PartialEq, Eq)]
pub enum MethodManglingStyle {
    /// The managed name, escaped where it is a reserved word.
    Java,
    /// The managed name followed by `_` and the spelled-out descriptor, so
    /// that overloads never share an identifier.
    JavaLongSignature,
}

/// The managed name under which constructors are declared.
pub open spec fn constructor_name() -> Seq<char> {
    "<init>"@
}

/// The managed name of a class's static initializer.
pub open spec fn static_init_name() -> Seq<char> {
    "<clinit>"@
}

/// The short identifier of a method: constructors are called `new`.
pub open spec fn short_name(name: Seq<char>) -> Option<Seq<char>> {
    if name == constructor_name() {
        Some("new"@)
    } else {
        rust_id_spec(name)
    }
}

pub open spec fn mangle_spec(name: Seq<char>, descriptor: Seq<char>, style: MethodManglingStyle) -> Option<
    Seq<char>,
> {
    match style {
        MethodManglingStyle::Java => short_name(name),
        MethodManglingStyle::JavaLongSignature => match (
            short_name(name),
            encode_descriptor(descriptor),
        ) {
            (Some(b), Some(e)) => Some(b + "_"@ + e),
            _ => None,
        },
    }
}

impl MethodManglingStyle {
    /// The identifier of a method under this style, or `None` where its name
    /// or descriptor cannot be spelled.
    pub fn mangle(self, name: &str, descriptor: &str) -> (r: Option<String>)
        ensures
            r matches Some(s) ==> mangle_spec(name@, descriptor@, self) == Some(s@),
            r is None ==> mangle_spec(name@, descriptor@, self) is None,
    {
        let base = if str_eq(name, "<init>") {
            Some(String::from_str("new"))
        } else {
            match rust_id(name) {
                Ok(s) => Some(s),
                Err(_) => None,
            }
        };
        match self {
            MethodManglingStyle::Java => base,
            MethodManglingStyle::JavaLongSignature => match base {
                None => None,
                Some(b) => match encode_descriptor_str(descriptor) {
                    None => None,
                    Some(e) => {
                        let mut r = b;
                        r.append("_");
                        r.append(e.as_str());
                        Some(r)
                    },
                },
            },
        }
    }
}

/// Two methods with one short identifier and distinct descriptors get
/// distinct long identifiers.
pub proof fn lemma_long_names_distinct(n1: Seq<char>, d1: Seq<char>, n2: Seq<char>, d2: Seq<char>)
    requires
        short_name(n1) is Some,
        short_name(n1) == short_name(n2),
        d1 != d2,
        mangle_spec(n1, d1, MethodManglingStyle::JavaLongSignature) is Some,
    ensures
        mangle_spec(n1, d1, MethodManglingStyle::JavaLongSignature) != mangle_spec(
            n2,
            d2,
            MethodManglingStyle::JavaLongSignature,
        ),
{
    let b = short_name(n1)->0;
    let p = b + "_"@;
    if mangle_spec(n2, d2, MethodManglingStyle::JavaLongSignature) is Some {
        let e1 = encode_descriptor(d1)->0;
        let e2 = encode_descriptor(d2)->0;
        if p + e1 == p + e2 {
            assert(e1 =~= (p + e1).subrange(p.len() as int, (p + e1).len() as int));
            assert(e2 =~= (p + e2).subrange(p.len() as int, (p + e2).len() as int));
            lemma_encode_injective(d1, d2);
        }
    }
}

} // verus!
