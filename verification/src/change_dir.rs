//! Path normalization for the `cd` built-in.
//!
//! The interpreter keeps a `PWD`-style logical path; normalizing collapses
//! empty components and resolves `..` against the component stack, with a
//! backslash escaping a following slash.  Actually changing the process's
//! directory is the embedding program's job.

use vstd::prelude::*;

verus! {

broadcast use {vstd::std_specs::vec::group_vec_axioms, vstd::seq::group_seq_axioms};

/// Folds one finished component onto the stack: `..` pops, an empty
/// component vanishes, anything else is pushed.
pub open spec fn s_component_fold(stack: Seq<Seq<char>>, cur: Seq<char>) -> Seq<Seq<char>> {
    if cur == ".."@ {
        if stack.len() > 0 {
            stack.drop_last()
        } else {
            stack
        }
    } else if cur.len() > 0 {
        stack.push(cur)
    } else {
        stack
    }
}

/// The component stack of a path: characters accumulate into the current
/// component, and an unescaped slash finishes it.
pub open spec fn s_components(
    s: Seq<char>,
    i: nat,
    stack: Seq<Seq<char>>,
    cur: Seq<char>,
    prev: char,
) -> Seq<Seq<char>>
    decreases s.len() - i,
{
    if i >= s.len() {
        s_component_fold(stack, cur)
    } else {
        let c = s[i as int];
        if c != '/' || prev == '\\' {
            s_components(s, i + 1, stack, cur.push(c), c)
        } else {
            s_components(s, i + 1, s_component_fold(stack, cur), Seq::empty(), c)
        }
    }
}

/// Path components joined by slashes.
pub open spec fn s_join_slash(parts: Seq<Seq<char>>) -> Seq<char>
    decreases parts.len(),
{
    if parts.len() == 0 {
        Seq::empty()
    } else if parts.len() == 1 {
        parts[0]
    } else {
        s_join_slash(parts.drop_last()) + seq!['/'] + parts.last()
    }
}

/// The normalized form of a path: a single leading slash, then the resolved
/// components joined by slashes.
pub open spec fn s_normalize_path(s: Seq<char>) -> Seq<char> {
    seq!['/'] + s_join_slash(s_components(s, 0, Seq::empty(), Seq::empty(), '\u{0}'))
}

fn component_fold(stack: &mut Vec<String>, cur: &String)
    ensures
        final(stack).deep_view() == s_component_fold(old(stack).deep_view(), cur@),
{
    let ghost s0 = stack.deep_view();
    if crate::tokenizer::str_eq(cur.as_str(), "..") {
        if stack.len() > 0 {
            let popped = stack.pop();
            proof {
                assert(stack.deep_view() =~= s0.drop_last());
            }
        }
    } else if cur.as_str().unicode_len() > 0 {
        stack.push(cur.clone());
        proof {
            assert(stack.deep_view() =~= s0.push(cur@));
        }
    }
}

fn join_slash(parts: &Vec<String>) -> (r: String)
    ensures
        r@ == s_join_slash(parts.deep_view()),
{
    if parts.len() == 0 {
        let r = String::new();
        proof {
            assert(r@ =~= Seq::<char>::empty());
        }
        return r;
    }
    let mut s = parts[0].clone();
    let mut i: usize = 1;
    proof {
        assert(parts.deep_view().take(1) =~= seq![parts.deep_view()[0]]);
        assert(s@ == s_join_slash(parts.deep_view().take(1)));
    }
    while i < parts.len()
        invariant
            1 <= i <= parts.len(),
            s@ == s_join_slash(parts.deep_view().take(i as int)),
        decreases parts.len() - i,
    {
        s.append("/");
        s.append(parts[i].as_str());
        proof {
            reveal_strlit("/");
            assert("/"@ =~= seq!['/']);
            let dv = parts.deep_view();
            assert(dv.take(i + 1).drop_last() =~= dv.take(i as int));
            assert(dv.take(i + 1).last() == dv[i as int]);
        }
        i += 1;
    }
    proof {
        assert(parts.deep_view().take(parts.len() as int) =~= parts.deep_view());
    }
    s
}

/// Normalizes a path: collapses repeated slashes, resolves `..` against the
/// preceding components, and keeps a backslash-escaped slash inside its
/// component.
pub fn normalize_path(path: &str) -> (r: String)
    ensures
        r@ == s_normalize_path(path@),
{
    let n = path.unicode_len();
    let mut stack: Vec<String> = Vec::new();
    let mut cur = String::new();
    let mut prev: char = '\u{0}';
    let mut i: usize = 0;
    proof {
        assert(stack.deep_view() =~= Seq::<Seq<char>>::empty());
        assert(cur@ =~= Seq::<char>::empty());
    }
    while i < n
        invariant
            i <= n,
            n == path@.len(),
            s_components(path@, 0, Seq::empty(), Seq::empty(), '\u{0}') == s_components(
                path@,
                i as nat,
                stack.deep_view(),
                cur@,
                prev,
            ),
        decreases n - i,
    {
        let c = path.get_char(i);
        if c != '/' || prev == '\\' {
            let ghost c0 = cur@;
            char_push(&mut cur, c);
            proof {
                assert(cur@ =~= c0.push(c));
            }
        } else {
            component_fold(&mut stack, &cur);
            cur = String::new();
            proof {
                assert(cur@ =~= Seq::<char>::empty());
            }
        }
        prev = c;
        i += 1;
    }
    component_fold(&mut stack, &cur);
    let mut r = String::from_str("/");
    proof {
        reveal_strlit("/");
        assert(r@ =~= seq!['/']);
    }
    r.append(join_slash(&stack).as_str());
    r
}

/// A one-character string holding exactly `c`.
fn char_str(c: char) -> (r: String)
    ensures
        r@ == seq![c],
{
    let mut s = String::new();
    char_push(&mut s, c);
    proof {
        assert(s@ =~= seq![c]);
    }
    s
}

/// Relies on `String::push`: appends exactly the one character.
#[verifier::external_body]
fn char_push(s: &mut String, c: char)
    ensures
        final(s)@ == old(s)@.push(c),
{
    s.push(c);
}

/// A pending directory change: the target path as given.
#[derive(Debug, PartialEq)]
pub struct ChangeDir {
    pub path: String,
}

impl ChangeDir {
    /// Wraps a target path for the `cd` built-in.
    pub fn new(path: &str) -> (r: ChangeDir)
        ensures
            r.path@ == path@,
    {
        ChangeDir { path: path.to_owned() }
    }
}

} // verus!
