//! The canonical, comparable representation of one publicly visible
//! declaration at a point in time.
//!
//! A [`PublicItem`]'s `path` is its identity key: two items describe the same
//! declaration exactly when their paths are equal. The total order used by the
//! diff engine sorts by `(path, rendered signature)`, so items that share a
//! path always end up adjacent after sorting.

use vstd::prelude::*;

verus! {

/// Classification of one text fragment of a rendered declaration, used by
/// rich renderers. The classification takes no part in ordering, only in
/// structural equality.
#[derive(Debug, Clone, Copy, PartialEq, Eq, Structural)]
pub enum TokenKind {
    Symbol,
    Qualifier,
    Kind,
    Whitespace,
    Identifier,
    Annotation,
    Keyword,
    Lifetime,
    Generic,
    Primitive,
    Type,
    Function,
}

/// One classified text fragment of a rendered declaration.
#[derive(Debug, Clone, PartialEq, Eq)]
pub struct Token {
    pub kind: TokenKind,
    pub text: String,
}

/// Mathematical model of a [`Token`].
#[verifier::ext_equal]
pub ghost struct TokenView {
    pub kind: TokenKind,
    pub text: Seq<char>,
}

impl View for Token {
    type V = TokenView;

    open spec fn view(&self) -> TokenView {
        TokenView { kind: self.kind, text: self.text@ }
    }
}

impl DeepView for Token {
    type V = TokenView;

    open spec fn deep_view(&self) -> TokenView {
        self.view()
    }
}

/// One publicly reachable declaration at a point in time.
///
/// `prefix` and `suffix` hold the signature text surrounding the canonical
/// dotted `path`; together the three render the full signature. `tokens`
/// optionally holds the same signature as classified fragments for rich
/// rendering; `None` means rendering fell back to the plain text form.
#[derive(Debug, Clone, PartialEq, Eq)]
pub struct PublicItem {
    pub prefix: String,
    pub path: String,
    pub suffix: String,
    pub tokens: Option<Vec<Token>>,
}

/// Mathematical model of a [`PublicItem`].
#[verifier::ext_equal]
pub ghost struct PublicItemView {
    pub prefix: Seq<char>,
    pub path: Seq<char>,
    pub suffix: Seq<char>,
    pub tokens: Option<Seq<TokenView>>,
}

impl View for PublicItem {
    type V = PublicItemView;

    open spec fn view(&self) -> PublicItemView {
        PublicItemView {
            prefix: self.prefix@,
            path: self.path@,
            suffix: self.suffix@,
            tokens: self.tokens.deep_view(),
        }
    }
}

impl DeepView for PublicItem {
    type V = PublicItemView;

    open spec fn deep_view(&self) -> PublicItemView {
        self.view()
    }
}

/// The full rendered signature of an item: prefix, then path, then suffix.
pub open spec fn rendered(v: PublicItemView) -> Seq<char> {
    v.prefix + v.path + v.suffix
}

/// Lexicographic comparison of two character sequences by scalar value.
pub open spec fn lex_cmp(a: Seq<char>, b: Seq<char>) -> core::cmp::Ordering
    decreases a.len(),
{
    if a.len() == 0 && b.len() == 0 {
        core::cmp::Ordering::Equal
    } else if a.len() == 0 {
        core::cmp::Ordering::Less
    } else if b.len() == 0 {
        core::cmp::Ordering::Greater
    } else if a[0] == b[0] {
        lex_cmp(a.skip(1), b.skip(1))
    } else if (a[0] as u32) < (b[0] as u32) {
        core::cmp::Ordering::Less
    } else {
        core::cmp::Ordering::Greater
    }
}

/// The total order of the diff engine: by path first, then by the full
/// rendered signature, so that items sharing a path sort adjacently.
pub open spec fn item_cmp_spec(a: PublicItemView, b: PublicItemView) -> core::cmp::Ordering {
    if lex_cmp(a.path, b.path) == core::cmp::Ordering::Equal {
        lex_cmp(rendered(a), rendered(b))
    } else {
        lex_cmp(a.path, b.path)
    }
}

pub open spec fn item_lt(a: PublicItemView, b: PublicItemView) -> bool {
    item_cmp_spec(a, b) == core::cmp::Ordering::Less
}

pub open spec fn item_le(a: PublicItemView, b: PublicItemView) -> bool {
    item_cmp_spec(a, b) != core::cmp::Ordering::Greater
}

/// Two equal sequences compare `Equal`, and conversely.
pub proof fn lemma_lex_cmp_eq(a: Seq<char>, b: Seq<char>)
    ensures
        (lex_cmp(a, b) == core::cmp::Ordering::Equal) <==> (a == b),
    decreases a.len(),
{
    if a.len() == 0 && b.len() == 0 {
        assert(a =~= b);
    } else if a.len() == 0 || b.len() == 0 {
        assert(a != b);
    } else if a[0] == b[0] {
        lemma_lex_cmp_eq(a.skip(1), b.skip(1));
        if lex_cmp(a, b) == core::cmp::Ordering::Equal {
            assert(a.skip(1) == b.skip(1));
            assert forall|i: int| 0 <= i < a.len() implies a[i] == b[i] by {
                if i > 0 {
                    assert(a[i] == a.skip(1)[i - 1]);
                    assert(b[i] == b.skip(1)[i - 1]);
                }
            }
            assert(a =~= b);
        } else {
            if a == b {
                assert(a.skip(1) =~= b.skip(1));
            }
        }
    } else {
        assert(a[0] != b[0]);
        assert(a != b);
    }
}

/// Swapping the arguments reverses the comparison.
pub proof fn lemma_lex_cmp_flip(a: Seq<char>, b: Seq<char>)
    ensures
        (lex_cmp(a, b) == core::cmp::Ordering::Less) <==> (lex_cmp(b, a)
            == core::cmp::Ordering::Greater),
        (lex_cmp(a, b) == core::cmp::Ordering::Equal) <==> (lex_cmp(b, a)
            == core::cmp::Ordering::Equal),
    decreases a.len(),
{
    if a.len() == 0 && b.len() == 0 {
    } else if a.len() == 0 || b.len() == 0 {
    } else if a[0] == b[0] {
        lemma_lex_cmp_flip(a.skip(1), b.skip(1));
    } else {
        vstd::utf8::char_u32_cast(a[0], a[0] as u32);
        vstd::utf8::char_u32_cast(b[0], b[0] as u32);
        assert((a[0] as u32) != (b[0] as u32));
    }
}

/// The comparison is transitive in its non-strict form.
pub proof fn lemma_lex_cmp_trans(a: Seq<char>, b: Seq<char>, c: Seq<char>)
    requires
        lex_cmp(a, b) != core::cmp::Ordering::Greater,
        lex_cmp(b, c) != core::cmp::Ordering::Greater,
    ensures
        lex_cmp(a, c) != core::cmp::Ordering::Greater,
    decreases a.len(),
{
    if a.len() == 0 {
    } else if c.len() == 0 {
        // b can only be below c if b is empty, and a below b likewise.
        assert(b.len() == 0);
        assert(false);
    } else if b.len() == 0 {
        assert(false);
    } else {
        if a[0] == b[0] && b[0] == c[0] {
            lemma_lex_cmp_trans(a.skip(1), b.skip(1), c.skip(1));
        } else if a[0] == b[0] {
            assert((b[0] as u32) < (c[0] as u32));
        } else if b[0] == c[0] {
            assert((a[0] as u32) < (b[0] as u32));
        } else {
            assert((a[0] as u32) < (b[0] as u32));
            assert((b[0] as u32) < (c[0] as u32));
        }
    }
}

/// The item order is transitive in its non-strict form.
pub proof fn lemma_item_le_trans(a: PublicItemView, b: PublicItemView, c: PublicItemView)
    requires
        item_le(a, b),
        item_le(b, c),
    ensures
        item_le(a, c),
{
    lemma_lex_cmp_eq(a.path, b.path);
    lemma_lex_cmp_eq(b.path, c.path);
    lemma_lex_cmp_eq(a.path, c.path);
    if lex_cmp(a.path, b.path) == core::cmp::Ordering::Equal && lex_cmp(b.path, c.path)
        == core::cmp::Ordering::Equal {
        lemma_lex_cmp_trans(rendered(a), rendered(b), rendered(c));
    } else if lex_cmp(a.path, b.path) == core::cmp::Ordering::Equal {
        assert(lex_cmp(a.path, c.path) == lex_cmp(b.path, c.path));
    } else if lex_cmp(b.path, c.path) == core::cmp::Ordering::Equal {
        assert(lex_cmp(a.path, c.path) == lex_cmp(a.path, b.path));
    } else {
        lemma_lex_cmp_trans(a.path, b.path, c.path);
        if lex_cmp(a.path, c.path) == core::cmp::Ordering::Equal {
            lemma_lex_cmp_flip(b.path, c.path);
            assert(lex_cmp(b.path, a.path) == core::cmp::Ordering::Greater);
            lemma_lex_cmp_flip(a.path, b.path);
            assert(false);
        }
    }
}

/// Of two items, one is always below or equal to the other.
pub proof fn lemma_item_le_total(a: PublicItemView, b: PublicItemView)
    ensures
        item_le(a, b) || item_le(b, a),
{
    lemma_item_cmp_flip(a, b);
}

/// A sequence of items that ascends in the diff engine's total order.
pub open spec fn sorted_items(s: Seq<PublicItemView>) -> bool {
    forall|i: int, j: int| 0 <= i < j < s.len() ==> item_le(#[trigger] s[i], #[trigger] s[j])
}

/// Items comparing `Equal` share their path and their rendered signature.
pub proof fn lemma_item_cmp_eq(a: PublicItemView, b: PublicItemView)
    ensures
        (item_cmp_spec(a, b) == core::cmp::Ordering::Equal) <==> (a.path == b.path && rendered(a)
            == rendered(b)),
{
    lemma_lex_cmp_eq(a.path, b.path);
    lemma_lex_cmp_eq(rendered(a), rendered(b));
}

/// Swapping the arguments reverses the item comparison.
pub proof fn lemma_item_cmp_flip(a: PublicItemView, b: PublicItemView)
    ensures
        item_lt(a, b) <==> (item_cmp_spec(b, a) == core::cmp::Ordering::Greater),
        (item_cmp_spec(a, b) == core::cmp::Ordering::Equal) <==> (item_cmp_spec(b, a)
            == core::cmp::Ordering::Equal),
{
    lemma_lex_cmp_flip(a.path, b.path);
    lemma_lex_cmp_flip(rendered(a), rendered(b));
}

/// Lexicographic comparison of two string slices, character by character.
pub fn str_cmp(a: &str, b: &str) -> (r: core::cmp::Ordering)
    ensures
        r == lex_cmp(a@, b@),
{
    let a_len = a.unicode_len();
    let b_len = b.unicode_len();
    let mut i: usize = 0;
    proof {
        assert(a@.skip(0) =~= a@);
        assert(b@.skip(0) =~= b@);
    }
    loop
        invariant
            i <= a_len,
            i <= b_len,
            a_len == a@.len(),
            b_len == b@.len(),
            lex_cmp(a@, b@) == lex_cmp(a@.skip(i as int), b@.skip(i as int)),
        decreases a_len - i,
    {
        if i == a_len || i == b_len {
            if a_len == b_len {
                return core::cmp::Ordering::Equal;
            } else if a_len < b_len {
                return core::cmp::Ordering::Less;
            } else {
                return core::cmp::Ordering::Greater;
            }
        }
        let ca = a.get_char(i);
        let cb = b.get_char(i);
        if ca == cb {
            proof {
                assert(a@.skip(i as int).skip(1) =~= a@.skip(i + 1));
                assert(b@.skip(i as int).skip(1) =~= b@.skip(i + 1));
            }
            i = i + 1;
        } else if (ca as u32) < (cb as u32) {
            return core::cmp::Ordering::Less;
        } else {
            proof {
                vstd::utf8::char_u32_cast(ca, ca as u32);
                vstd::utf8::char_u32_cast(cb, cb as u32);
                assert((ca as u32) != (cb as u32));
            }
            return core::cmp::Ordering::Greater;
        }
    }
}

impl PublicItem {
    /// The full plain-text signature of this item.
    pub fn rendered_text(&self) -> (s: String)
        ensures
            s@ == rendered(self@),
    {
        let mut s = String::new();
        s.append(self.prefix.as_str());
        s.append(self.path.as_str());
        s.append(self.suffix.as_str());
        s
    }
}

/// Compares two items in the diff engine's total order.
pub fn item_cmp(a: &PublicItem, b: &PublicItem) -> (r: core::cmp::Ordering)
    ensures
        r == item_cmp_spec(a@, b@),
{
    let by_path = str_cmp(a.path.as_str(), b.path.as_str());
    match by_path {
        core::cmp::Ordering::Equal => {
            let ra = a.rendered_text();
            let rb = b.rendered_text();
            str_cmp(ra.as_str(), rb.as_str())
        },
        _ => by_path,
    }
}

/// Structural equality of two tokens.
pub fn token_eq(a: &Token, b: &Token) -> (r: bool)
    ensures
        r == (a@ == b@),
{
    let r = a.kind == b.kind && a.text == b.text;
    proof {
        if a.kind == b.kind && a.text@ == b.text@ {
            assert(a@ =~= b@);
        }
    }
    r
}

/// Structural equality of the optional token sequences of two items.
fn tokens_eq(a: &Option<Vec<Token>>, b: &Option<Vec<Token>>) -> (r: bool)
    ensures
        r == (a.deep_view() == b.deep_view()),
{
    match (a, b) {
        (None, None) => true,
        (Some(x), Some(y)) => {
            if x.len() != y.len() {
                proof {
                    assert(x.deep_view().len() != y.deep_view().len());
                }
                return false;
            }
            let n = x.len();
            let mut i: usize = 0;
            while i < n
                invariant
                    i <= n,
                    n == x.len(),
                    n == y.len(),
                    a.deep_view() == Some(x.deep_view()),
                    b.deep_view() == Some(y.deep_view()),
                    forall|k: int| 0 <= k < i ==> x.deep_view()[k] == y.deep_view()[k],
                decreases n - i,
            {
                if !token_eq(&x[i], &y[i]) {
                    proof {
                        assert(x.deep_view()[i as int] != y.deep_view()[i as int]);
                    }
                    return false;
                }
                i = i + 1;
            }
            proof {
                assert(x.deep_view() =~= y.deep_view());
            }
            true
        },
        _ => false,
    }
}

/// Full structural equality of two items, over all four fields.
pub fn item_eq(a: &PublicItem, b: &PublicItem) -> (r: bool)
    ensures
        r == (a@ == b@),
{
    let r = a.prefix == b.prefix && a.path == b.path && a.suffix == b.suffix && tokens_eq(
        &a.tokens,
        &b.tokens,
    );
    proof {
        if r {
            assert(a@ =~= b@);
        } else {
            if a@ == b@ {
                assert(a.prefix@ == b.prefix@);
                assert(a.path@ == b.path@);
                assert(a.suffix@ == b.suffix@);
            }
        }
    }
    r
}

/// Equality of the identity keys of two items.
pub fn path_eq(a: &PublicItem, b: &PublicItem) -> (r: bool)
    ensures
        r == (a@.path == b@.path),
{
    a.path == b.path
}

} // verus!
