use vstd::prelude::*;

use crate::lexer::{chars_of, push_char, words};

verus! {

/// The fields of `s` between `:` separators; an empty text has one empty field.
pub open spec fn split_colon(s: Seq<char>) -> Seq<Seq<char>>
    decreases s.len(),
{
    if s.len() == 0 {
        seq![Seq::empty()]
    } else {
        let r = split_colon(s.drop_last());
        if s.last() == ':' {
            r.push(Seq::empty())
        } else {
            r.update(r.len() - 1, r.last().push(s.last()))
        }
    }
}

pub proof fn lemma_split_colon_nonempty(s: Seq<char>)
    ensures
        split_colon(s).len() >= 1,
    decreases s.len(),
{
    if s.len() > 0 {
        lemma_split_colon_nonempty(s.drop_last());
    }
}

/// The paths tried for `name`, one per directory of the search path
/// `path_var`, in its order.
pub open spec fn candidates_spec(path_var: Seq<char>, name: Seq<char>) -> Seq<Seq<char>> {
    split_colon(path_var).map_values(|d: Seq<char>| d + seq!['/'] + name)
}

/// Splits the search path `path_var` at each `:` and joins each directory
/// with `name`.
pub fn candidates(path_var: &str, name: &str) -> (r: Vec<String>)
    ensures
        words(r@) == candidates_spec(path_var@, name@),
{
    let s = chars_of(path_var);
    let mut dirs: Vec<String> = Vec::new();
    let mut cur = String::new();
    let mut i: usize = 0;
    while i < s.len()
        invariant
            s@ == path_var@,
            i <= s@.len(),
            words(dirs@).push(cur@) == split_colon(s@.take(i as int)),
        decreases s@.len() - i,
    {
        let ghost before = s@.take(i as int);
        proof {
            assert(s@.take(i + 1).drop_last() =~= before);
            lemma_split_colon_nonempty(before);
        }
        if s[i] == ':' {
            let ghost prev = dirs@;
            dirs.push(cur);
            cur = String::new();
            assert(words(dirs@) =~= words(prev).push(dirs@.last()@));
            assert(words(dirs@).push(cur@) =~= split_colon(s@.take(i + 1)));
        } else {
            push_char(&mut cur, s[i]);
            assert(words(dirs@).push(cur@) =~= split_colon(s@.take(i + 1)));
        }
        i = i + 1;
    }
    assert(s@.take(i as int) =~= s@);
    let ghost fields = words(dirs@).push(cur@);
    dirs.push(cur);
    assert(words(dirs@) =~= fields);
    let mut r: Vec<String> = Vec::new();
    let mut k: usize = 0;
    while k < dirs.len()
        invariant
            k <= dirs@.len(),
            words(dirs@) == split_colon(path_var@),
            words(r@) == candidates_spec(path_var@, name@).take(k as int),
        decreases dirs@.len() - k,
    {
        let ghost d = dirs@[k as int]@;
        let mut p = dirs[k].clone();
        push_char(&mut p, '/');
        p.append(name);
        assert(p@ =~= d + seq!['/'] + name@);
        let ghost prev = r@;
        r.push(p);
        assert(words(dirs@)[k as int] == dirs@[k as int]@);
        assert(words(r@) =~= words(prev).push(p@));
        assert(words(r@) =~= candidates_spec(path_var@, name@).take(k + 1));
        k = k + 1;
    }
    assert(candidates_spec(path_var@, name@).take(k as int) =~= candidates_spec(
        path_var@,
        name@,
    ));
    r
}

/// The first of `paths` whose entry exists, where `exists[i]` tells whether
/// `paths[i]` does: the earliest directory of the search path wins.
pub fn first_existing(paths: &Vec<String>, exists: &Vec<bool>) -> (r: Option<String>)
    requires
        paths@.len() == exists@.len(),
    ensures
        r is None <==> forall|i: int| 0 <= i < exists@.len() ==> !exists@[i],
        r matches Some(p) ==> exists|i: int|
            0 <= i < exists@.len() && exists@[i] && p@ == paths@[i]@ && forall|j: int|
                0 <= j < i ==> !exists@[j],
{
    let mut i: usize = 0;
    while i < paths.len()
        invariant
            paths@.len() == exists@.len(),
            i <= paths@.len(),
            forall|j: int| 0 <= j < i ==> !exists@[j],
        decreases paths@.len() - i,
    {
        if exists[i] {
            return Some(paths[i].clone());
        }
        i = i + 1;
    }
    None
}

} // verus!
