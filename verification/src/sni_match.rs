//! Matching of a requested server name against a certificate's names.
//!
//! A name matches itself up to ASCII case, and a wildcard "*.base" matches every name
//! that puts exactly one label in front of the base.

use vstd::prelude::*;
use crate::text::{
    ascii_lower, ascii_lowercase, chars_of, eq_ignoring_ascii_case, same_text, views,
};

verus! {

/// The name consists of one label, a dot and the base.
pub open spec fn one_label_below(name: Seq<char>, base: Seq<char>) -> bool {
    exists|label: Seq<char>| #[trigger] is_label(label) && name == label + seq!['.'] + base
}

/// A label: not empty, and without a dot.
pub open spec fn is_label(label: Seq<char>) -> bool {
    label.len() > 0 && !label.contains('.')
}

/// The wildcard "*.base".
pub open spec fn wildcard(base: Seq<char>) -> Seq<char> {
    seq!['*', '.'] + base
}

/// The lowercase name is matched by the lowercase name of a certificate.
pub open spec fn lower_match(sni: Seq<char>, san: Seq<char>) -> bool {
    ||| sni == san
    ||| exists|base: Seq<char>|
        base.len() > 0 && san == #[trigger] wildcard(base) && one_label_below(sni, base)
}

/// The requested name is matched by a certificate's name.
pub open spec fn sni_match(sni: Seq<char>, san: Seq<char>) -> bool {
    lower_match(ascii_lowercase(sni), ascii_lowercase(san))
}

/// The requested name is matched by one of a certificate's names.
pub open spec fn sni_match_any(sni: Seq<char>, sans: Seq<Seq<char>>) -> bool {
    exists|i: int| 0 <= i < sans.len() && sni_match(sni, #[trigger] sans[i])
}

/// Matching does not depend on ASCII case.
pub proof fn matching_ignores_case(a: Seq<char>, b: Seq<char>, san: Seq<char>)
    requires
        ascii_lowercase(a) == ascii_lowercase(b),
    ensures
        sni_match(a, san) == sni_match(b, san),
        sni_match(san, a) == sni_match(san, b),
{
}

/// Every name matches itself.
pub proof fn matching_is_reflexive(name: Seq<char>)
    ensures
        sni_match(name, name),
{
}

/// A wildcard matches every name with exactly one label in front of its base.
pub proof fn wildcard_matches_one_label(label: Seq<char>, base: Seq<char>)
    requires
        is_label(label),
        base.len() > 0,
    ensures
        sni_match(label + seq!['.'] + base, wildcard(base)),
{
    let l = ascii_lowercase(label);
    let b = ascii_lowercase(base);
    assert(ascii_lowercase(wildcard(base)) =~= wildcard(b));
    assert(ascii_lowercase(label + seq!['.'] + base) =~= l + seq!['.'] + b);
    assert forall|i: int| 0 <= i < l.len() implies l[i] != '.' by {
        assert(label[i] != '.') by {
            assert(label.contains(label[i]));
        }
    }
    assert(is_label(l));
    assert(one_label_below(l + seq!['.'] + b, b));
}

/// A wildcard does not match its bare base.
pub proof fn wildcard_rejects_bare_base(base: Seq<char>)
    ensures
        !sni_match(base, wildcard(base)),
{
    let b = ascii_lowercase(base);
    let w = ascii_lowercase(wildcard(base));
    assert(w =~= wildcard(b));
    assert(w.len() == b.len() + 2);
    assert forall|other: Seq<char>| w == #[trigger] wildcard(other) implies !one_label_below(
        b,
        other,
    ) by {
        assert(wildcard(other).len() == other.len() + 2);
    }
}

/// A wildcard does not match a name with two or more labels in front of its base.
pub proof fn wildcard_rejects_deeper_names(label: Seq<char>, rest: Seq<char>, base: Seq<char>)
    requires
        base.len() > 0,
        base[0] != '.',
    ensures
        !sni_match(label + seq!['.'] + rest + seq!['.'] + base, wildcard(base)),
{
    let name = label + seq!['.'] + rest + seq!['.'] + base;
    let n = ascii_lowercase(name);
    let b = ascii_lowercase(base);
    let w = ascii_lowercase(wildcard(base));
    assert(w =~= wildcard(b));
    if n == w {
        // The two start alike, so the first label is "*" and the base starts the rest.
        assert(n.len() == w.len());
        assert(n.len() == label.len() + rest.len() + base.len() + 2);
        assert(label.len() + rest.len() == 0);
        assert(n[1] == '.' && name[1] == '.');
        assert(n[0] == ascii_lower('.'));
        assert(w[0] == '*');
    }
    assert forall|other: Seq<char>| w == #[trigger] wildcard(other) implies !one_label_below(
        n,
        other,
    ) by {
        assert(other =~= b) by {
            assert(wildcard(other).len() == other.len() + 2);
            assert forall|i: int| 0 <= i < b.len() implies other[i] == b[i] by {
                assert(wildcard(other)[i + 2] == wildcard(b)[i + 2]);
            }
        }
        if one_label_below(n, other) {
            let l = choose|l: Seq<char>| #[trigger] is_label(l) && n == l + seq!['.'] + other;
            assert(n.len() == label.len() + rest.len() + base.len() + 2);
            assert((l + seq!['.'] + other).len() == l.len() + 1 + other.len());
            assert(l.len() == label.len() + rest.len() + 1);
            assert(n[label.len() as int] == ascii_lower(name[label.len() as int]));
            assert(name[label.len() as int] == '.');
            assert(l[label.len() as int] == '.');
            assert(l.contains('.'));
        }
    }
}

/// Whether the characters of `s` from `from` on are those of `t` from `skip` on.
fn same_tail(s: &Vec<char>, from: usize, t: &Vec<char>, skip: usize) -> (r: bool)
    requires
        from <= s.len(),
        skip <= t.len(),
        s.len() - from == t.len() - skip,
    ensures
        r == (s@.skip(from as int) == t@.skip(skip as int)),
{
    let mut i: usize = 0;
    while i < t.len() - skip
        invariant
            from <= s.len(),
            skip <= t.len(),
            s.len() - from == t.len() - skip,
            i <= t.len() - skip,
            forall|j: int| from <= j < from + i ==> #[trigger] s@[j] == t@[j - from + skip],
        decreases t.len() - skip - i,
    {
        if s[from + i] != t[skip + i] {
            assert(s@.skip(from as int)[i as int] != t@.skip(skip as int)[i as int]);
            return false;
        }
        i += 1;
    }
    assert(s@.skip(from as int) =~= t@.skip(skip as int));
    true
}

/// Whether the first `count` characters hold no dot.
fn no_dot_before(s: &Vec<char>, count: usize) -> (r: bool)
    requires
        count <= s.len(),
    ensures
        r == !s@.take(count as int).contains('.'),
{
    let mut i: usize = 0;
    while i < count
        invariant
            i <= count <= s.len(),
            forall|j: int| 0 <= j < i ==> s@[j] != '.',
        decreases count - i,
    {
        if s[i] == '.' {
            assert(s@.take(count as int)[i as int] == '.');
            return false;
        }
        i += 1;
    }
    true
}

/// Whether a requested server name is matched by one name of a certificate: by the same
/// name up to ASCII case, or by a wildcard "*.base" where the requested name has exactly
/// one label in front of the base.
pub fn sni_matches_san(sni: &str, san: &str) -> (r: bool)
    ensures
        r == sni_match(sni@, san@),
{
    let sni_lower = sni.to_ascii_lowercase();
    let san_lower = san.to_ascii_lowercase();
    if same_text(sni_lower.as_str(), san_lower.as_str()) {
        return true;
    }
    let name = chars_of(sni_lower.as_str());
    let pattern = chars_of(san_lower.as_str());
    let ghost n = sni_lower@;
    let ghost p = san_lower@;
    if pattern.len() <= 2 || pattern[0] != '*' || pattern[1] != '.' {
        proof {
            assert forall|base: Seq<char>| base.len() > 0 implies p != #[trigger] wildcard(
                base,
            ) by {
                assert(wildcard(base)[0] == '*' && wildcard(base)[1] == '.');
            }
        }
        return false;
    }
    let ghost base = p.skip(2);
    proof {
        assert(p =~= wildcard(base));
        assert forall|other: Seq<char>| p == #[trigger] wildcard(other) implies other == base by {
            assert(wildcard(other).skip(2) =~= other);
        }
    }
    if name.len() < pattern.len() {
        proof {
            if one_label_below(n, base) {
                let l = choose|l: Seq<char>| #[trigger] is_label(l) && n == l + seq!['.'] + base;
                assert(n.len() == l.len() + 1 + base.len());
            }
        }
        return false;
    }
    // What follows the label has to be the pattern without its star.
    let cut: usize = name.len() - (pattern.len() - 1);
    let found = same_tail(&name, cut, &pattern, 1) && no_dot_before(&name, cut);
    proof {
        assert(p.skip(1) =~= seq!['.'] + base);
        let label = n.take(cut as int);
        if found {
            assert(n =~= label + n.skip(cut as int));
            assert(label + (seq!['.'] + base) =~= label + seq!['.'] + base);
            assert(is_label(label));
        }
        if one_label_below(n, base) {
            let l = choose|l: Seq<char>| #[trigger] is_label(l) && n == l + seq!['.'] + base;
            assert(l.len() == cut);
            assert(l =~= label);
            assert(n.skip(cut as int) =~= seq!['.'] + base);
        }
    }
    found
}

/// Whether a requested server name is matched by one of a certificate's names.
pub fn sni_matches_any_san(sni: &str, sans: &[String]) -> (r: bool)
    ensures
        r == sni_match_any(sni@, views(sans@)),
{
    let mut i: usize = 0;
    while i < sans.len()
        invariant
            i <= sans@.len(),
            forall|j: int| 0 <= j < i ==> !sni_match(sni@, #[trigger] views(sans@)[j]),
        decreases sans@.len() - i,
    {
        if sni_matches_san(sni, sans[i].as_str()) {
            assert(sni_match(sni@, views(sans@)[i as int]));
            return true;
        }
        i += 1;
    }
    false
}

/// A certificate's name that does not start with "*." is matched by no requested name other than
/// itself up to ASCII case. Neither is the bare wildcard "*.".
pub proof fn plain_name_matches_only_itself(sni: Seq<char>, san: Seq<char>)
    requires
        san.len() <= 2 || san[0] != '*' || san[1] != '.',
    ensures
        sni_match(sni, san) <==> eq_ignoring_ascii_case(sni, san),
{
    let p = ascii_lowercase(san);
    assert forall|base: Seq<char>| base.len() > 0 implies p != #[trigger] wildcard(base) by {
        if p == wildcard(base) {
            assert(wildcard(base).len() == base.len() + 2);
            assert(wildcard(base)[0] == '*' && wildcard(base)[1] == '.');
            crate::text::ascii_case_by_codes(san, 0);
            crate::text::ascii_case_by_codes(san, 1);
        }
    }
}

/// A wildcard is matched, other than by itself, exactly by the names that end in the wildcard
/// without its star and have at least one character, and no dot, in front of that.
pub proof fn wildcard_matches_names_with_its_ending(sni: Seq<char>, san: Seq<char>)
    requires
        san.len() > 2,
        san[0] == '*',
        san[1] == '.',
    ensures
        sni_match(sni, san) <==> {
            ||| eq_ignoring_ascii_case(sni, san)
            ||| {
                let cut = sni.len() - (san.len() - 1);
                &&& cut > 0
                &&& eq_ignoring_ascii_case(sni.skip(cut), san.skip(1))
                &&& forall|i: int| 0 <= i < cut ==> #[trigger] sni[i] != '.'
            }
        },
{
    let n = ascii_lowercase(sni);
    let p = ascii_lowercase(san);
    let base = p.skip(2);
    crate::text::ascii_case_by_codes(san, 0);
    crate::text::ascii_case_by_codes(san, 1);
    assert(p =~= wildcard(base));
    assert forall|other: Seq<char>| p == #[trigger] wildcard(other) implies other == base by {
        assert(wildcard(other).skip(2) =~= other);
    }
    let cut = sni.len() - (san.len() - 1);
    if cut > 0 {
        assert(ascii_lowercase(sni.skip(cut)) =~= n.skip(cut));
        assert(ascii_lowercase(san.skip(1)) =~= p.skip(1));
        assert(p.skip(1) =~= seq!['.'] + base);
        let label = n.take(cut);
        if n.skip(cut) == p.skip(1) && forall|i: int| 0 <= i < cut ==> #[trigger] sni[i] != '.' {
            assert(n =~= label + n.skip(cut));
            assert(label + (seq!['.'] + base) =~= label + seq!['.'] + base);
            assert forall|i: int| 0 <= i < label.len() implies label[i] != '.' by {
                crate::text::ascii_case_by_codes(sni, i);
                assert(sni[i] != '.');
            }
            assert(is_label(label));
            assert(one_label_below(n, base));
        }
    }
    if one_label_below(n, base) {
        let l = choose|l: Seq<char>| #[trigger] is_label(l) && n == l + seq!['.'] + base;
        assert(n.len() == l.len() + 1 + base.len());
        assert(l.len() == cut);
        assert(n.skip(cut) =~= seq!['.'] + base);
        assert forall|i: int| 0 <= i < cut implies #[trigger] sni[i] != '.' by {
            assert(n[i] == l[i]);
            if sni[i] == '.' {
                crate::text::ascii_case_by_codes(sni, i);
                assert(l.contains(l[i]));
            }
        }
    }
}

/// A requested name is matched by a list of names exactly where one of them matches it.
pub proof fn list_matches_where_one_name_does(
    sni: Seq<char>,
    a: Seq<Seq<char>>,
    b: Seq<Seq<char>>,
    name: Seq<char>,
)
    ensures
        sni_match_any(sni, a + b) <==> sni_match_any(sni, a) || sni_match_any(sni, b),
        sni_match_any(sni, seq![name]) <==> sni_match(sni, name),
        a.len() == 0 ==> !sni_match_any(sni, a),
{
    if sni_match_any(sni, a) {
        let i = choose|i: int| 0 <= i < a.len() && sni_match(sni, #[trigger] a[i]);
        assert((a + b)[i] == a[i]);
    }
    if sni_match_any(sni, b) {
        let i = choose|i: int| 0 <= i < b.len() && sni_match(sni, #[trigger] b[i]);
        assert((a + b)[a.len() + i] == b[i]);
    }
    if sni_match_any(sni, a + b) {
        let i = choose|i: int| 0 <= i < (a + b).len() && sni_match(sni, #[trigger] (a + b)[i]);
        if i < a.len() {
            assert((a + b)[i] == a[i]);
        } else {
            assert((a + b)[i] == b[i - a.len()]);
        }
    }
    if sni_match(sni, name) {
        assert(sni_match(sni, seq![name][0]));
    }
}

} // verus!
