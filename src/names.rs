//! File names: the order in which listings are shown, hidden names and the
//! `.txt` extension.

use vstd::prelude::*;

verus! {

/// Strict lexicographic order on names, character by character (by code
/// point); a proper prefix comes first.
pub open spec fn name_lt(a: Seq<char>, b: Seq<char>) -> bool
    decreases a.len(),
{
    if a.len() == 0 {
        b.len() > 0
    } else if b.len() == 0 {
        false
    } else if a[0] != b[0] {
        (a[0] as int) < (b[0] as int)
    } else {
        name_lt(a.drop_first(), b.drop_first())
    }
}

pub proof fn lemma_name_lt_irreflexive(a: Seq<char>)
    ensures
        !name_lt(a, a),
    decreases a.len(),
{
    if a.len() > 0 {
        lemma_name_lt_irreflexive(a.drop_first());
    }
}

pub proof fn lemma_name_lt_transitive(a: Seq<char>, b: Seq<char>, c: Seq<char>)
    requires
        name_lt(a, b),
        name_lt(b, c),
    ensures
        name_lt(a, c),
    decreases a.len(),
{
    if a.len() > 0 && b.len() > 0 && c.len() > 0 {
        if a[0] == b[0] && b[0] == c[0] {
            lemma_name_lt_transitive(a.drop_first(), b.drop_first(), c.drop_first());
        }
    }
}

pub proof fn lemma_name_lt_total(a: Seq<char>, b: Seq<char>)
    requires
        a != b,
    ensures
        name_lt(a, b) || name_lt(b, a),
    decreases a.len(),
{
    if a.len() == 0 && b.len() == 0 {
        assert(a =~= b);
    }
    if a.len() > 0 && b.len() > 0 && a[0] != b[0] {
        assert((a[0] as int) != (b[0] as int));
    }
    if a.len() > 0 && b.len() > 0 && a[0] == b[0] {
        if a.drop_first() == b.drop_first() {
            assert(a =~= seq![a[0]] + a.drop_first());
            assert(b =~= seq![b[0]] + b.drop_first());
        }
        lemma_name_lt_total(a.drop_first(), b.drop_first());
    }
}

pub proof fn lemma_name_lt_asymmetric(a: Seq<char>, b: Seq<char>)
    requires
        name_lt(a, b),
    ensures
        !name_lt(b, a),
{
    if name_lt(b, a) {
        lemma_name_lt_transitive(a, b, a);
        lemma_name_lt_irreflexive(a);
    }
}

proof fn lemma_name_lt_skip(a: Seq<char>, b: Seq<char>, i: int)
    requires
        0 <= i <= a.len(),
        i <= b.len(),
        a.subrange(0, i) == b.subrange(0, i),
    ensures
        name_lt(a, b) == name_lt(a.skip(i), b.skip(i)),
    decreases i,
{
    if i == 0 {
        assert(a.skip(0) =~= a);
        assert(b.skip(0) =~= b);
    } else {
        assert(a[0] == a.subrange(0, i)[0]);
        assert(b[0] == b.subrange(0, i)[0]);
        assert(a.drop_first().subrange(0, i - 1) =~= a.subrange(0, i).drop_first());
        assert(b.drop_first().subrange(0, i - 1) =~= b.subrange(0, i).drop_first());
        lemma_name_lt_skip(a.drop_first(), b.drop_first(), i - 1);
        assert(a.drop_first().skip(i - 1) =~= a.skip(i));
        assert(b.drop_first().skip(i - 1) =~= b.skip(i));
    }
}

/// Whether `a` comes strictly before `b` in listing order.
pub fn name_less(a: &String, b: &String) -> (r: bool)
    ensures
        r == name_lt(a@, b@),
{
    let sa = a.as_str();
    let sb = b.as_str();
    let la = sa.unicode_len();
    let lb = sb.unicode_len();
    let mut i: usize = 0;
    while i < la && i < lb
        invariant
            la == a@.len(),
            lb == b@.len(),
            sa@ == a@,
            sb@ == b@,
            i <= la,
            i <= lb,
            a@.subrange(0, i as int) == b@.subrange(0, i as int),
        decreases la - i,
    {
        let ca = sa.get_char(i);
        let cb = sb.get_char(i);
        if ca != cb {
            proof {
                lemma_name_lt_skip(a@, b@, i as int);
                assert(a@.skip(i as int)[0] == ca);
                assert(b@.skip(i as int)[0] == cb);
            }
            return (ca as u32) < (cb as u32);
        }
        assert(a@.subrange(0, i + 1) =~= a@.subrange(0, i as int).push(ca));
        assert(b@.subrange(0, i + 1) =~= b@.subrange(0, i as int).push(cb));
        i = i + 1;
    }
    proof {
        lemma_name_lt_skip(a@, b@, i as int);
    }
    i == la && i < lb
}

/// A name that starts with a dot is hidden from listings.
pub open spec fn is_hidden(name: Seq<char>) -> bool {
    name.len() > 0 && name[0] == '.'
}

/// The name ends in `.txt`.
pub open spec fn ends_with_txt(name: Seq<char>) -> bool {
    let n = name.len();
    n >= 4 && name[n - 4] == '.' && name[n - 3] == 't' && name[n - 2] == 'x' && name[n - 1] == 't'
}

/// The name has the extension `txt`: it ends in `.txt` with something before
/// the dot (`.txt` alone is a hidden name without extension).
pub open spec fn has_txt_extension(name: Seq<char>) -> bool {
    ends_with_txt(name) && name.len() > 4
}

/// The name shown in the rename prompt: a trailing `.txt` is taken off.
pub open spec fn stem_for_rename(name: Seq<char>) -> Seq<char> {
    if ends_with_txt(name) {
        name.subrange(0, name.len() - 4)
    } else {
        name
    }
}

pub fn name_is_hidden(name: &String) -> (r: bool)
    ensures
        r == is_hidden(name@),
{
    let s = name.as_str();
    let n = s.unicode_len();
    n > 0 && s.get_char(0) == '.'
}

pub fn name_ends_with_txt(name: &String) -> (r: bool)
    ensures
        r == ends_with_txt(name@),
{
    let s = name.as_str();
    let n = s.unicode_len();
    n >= 4 && s.get_char(n - 4) == '.' && s.get_char(n - 3) == 't' && s.get_char(n - 2) == 'x'
        && s.get_char(n - 1) == 't'
}

pub fn name_has_txt_extension(name: &String) -> (r: bool)
    ensures
        r == has_txt_extension(name@),
{
    let n = name.as_str().unicode_len();
    n > 4 && name_ends_with_txt(name)
}

/// The name with a trailing `.txt` taken off, as the rename prompt shows it.
pub fn rename_stem(name: &String) -> (r: String)
    ensures
        r@ == stem_for_rename(name@),
{
    if name_ends_with_txt(name) {
        let s = name.as_str();
        let n = s.unicode_len();
        s.substring_char(0, n - 4).to_owned()
    } else {
        name.clone()
    }
}

/// The file name that a rename gives: `.txt` is put back on a file, a
/// folder keeps the name as typed.
pub open spec fn renamed_file_name(new_name: Seq<char>, is_dir: bool) -> Seq<char> {
    if is_dir {
        new_name
    } else {
        new_name + seq!['.', 't', 'x', 't']
    }
}

pub fn renamed_name(new_name: &String, is_dir: bool) -> (r: String)
    ensures
        r@ == renamed_file_name(new_name@, is_dir),
{
    if is_dir {
        new_name.clone()
    } else {
        let ext = ".txt";
        proof {
            reveal_strlit(".txt");
        }
        let r = new_name.clone().concat(ext);
        assert(r@ =~= new_name@ + seq!['.', 't', 'x', 't']);
        r
    }
}

} // verus!
