use vstd::prelude::*;
use vstd::slice::*;
use vstd::string::*;
use crate::model::views;
use crate::text::{find_char, find_from, is_text, lemma_find_from, text_of};

verus! {

/// A variable that has a value.
#[derive(Clone, Debug, PartialEq, Eq)]
pub struct Binding {
    pub name: String,
    pub value: String,
}

/// The mathematical view of `Binding`: texts and lists as sequences.
pub struct BindingView {
    pub name: Seq<char>,
    pub value: Seq<char>,
}

impl View for Binding {
    type V = BindingView;

    open spec fn view(&self) -> BindingView {
        BindingView { name: self.name@, value: self.value@ }
    }
}

/// The value bound to `name`: that of the latest binding of that name.
pub open spec fn lookup(bindings: Seq<BindingView>, name: Seq<char>) -> Option<Seq<char>>
    decreases bindings.len(),
{
    if bindings.len() == 0 {
        None
    } else if bindings.last().name == name {
        Some(bindings.last().value)
    } else {
        lookup(bindings.drop_last(), name)
    }
}

/// Whether a reference to a variable, `{$` name `}`, starts at `pos`.
pub open spec fn reference_at(s: Seq<char>, pos: int) -> bool {
    &&& 0 <= pos
    &&& pos + 1 < s.len()
    &&& s[pos] == '{'
    &&& s[pos + 1] == '$'
    &&& find_from(s, '}', pos + 2) < s.len()
}

/// `s` from `pos` on with every reference replaced by the value of its
/// variable, or the name of the first variable that has none.  A value that
/// was put in is not looked at again.
pub open spec fn expand_from(bindings: Seq<BindingView>, s: Seq<char>, pos: int) -> Result<
    Seq<char>,
    Seq<char>,
>
    decreases s.len() - pos,
{
    if pos < 0 || pos >= s.len() {
        Ok(Seq::empty())
    } else if reference_at(s, pos) {
        let close = find_from(s, '}', pos + 2);
        let name = s.subrange(pos + 2, close);
        proof {
            lemma_find_from(s, '}', pos + 2);
        }
        match lookup(bindings, name) {
            None => Err(name),
            Some(value) => match expand_from(bindings, s, close + 1) {
                Ok(rest) => Ok(value + rest),
                Err(missing) => Err(missing),
            },
        }
    } else {
        match expand_from(bindings, s, pos + 1) {
            Ok(rest) => Ok(seq![s[pos]] + rest),
            Err(missing) => Err(missing),
        }
    }
}

/// `s` with every reference to a variable replaced by its value.
pub open spec fn expand(bindings: Seq<BindingView>, s: Seq<char>) -> Result<Seq<char>, Seq<char>> {
    expand_from(bindings, s, 0)
}

/// Looks up the value of the variable `name`.
pub fn lookup_value<'a>(bindings: &'a Vec<Binding>, name: &[char]) -> (res: Option<&'a String>)
    ensures
        match res {
            Some(value) => lookup(views(bindings@), name@) == Some(value@),
            None => lookup(views(bindings@), name@) is None,
        },
{
    let mut i: usize = bindings.len();
    assert(views(bindings@).take(i as int) =~= views(bindings@));
    while i > 0
        invariant
            i <= bindings@.len(),
            lookup(views(bindings@), name@) == lookup(views(bindings@).take(i as int), name@),
        decreases i,
    {
        i -= 1;
        proof {
            let prefix = views(bindings@).take(i + 1);
            assert(prefix.last() == bindings@[i as int]@);
            assert(prefix.drop_last() =~= views(bindings@).take(i as int));
        }
        if is_text(name, bindings[i].name.as_str()) {
            return Some(&bindings[i].value);
        }
    }
    None
}

/// Appends the characters of `s` to `out`.
pub fn push_text(out: &mut Vec<char>, s: &str)
    ensures
        final(out)@ == old(out)@ + s@,
{
    let ghost before = out@;
    for c in it: s.chars()
        invariant
            it.seq() == s@,
            out@ == before + it.seq().take(it.index()),
    {
        out.push(c);
        assert(before + it.seq().take(it.index() + 1) =~= (before + it.seq().take(
            it.index(),
        )).push(c));
    }
    assert(s@.take(s@.len() as int) =~= s@);
}

/// Replaces every reference to a variable in `s` by the variable's value.
/// Fails with the name of the first variable that has no value.
pub fn substitute(bindings: &Vec<Binding>, s: &[char]) -> (res: Result<Vec<char>, String>)
    ensures
        match res {
            Ok(text) => expand(views(bindings@), s@) == Ok::<Seq<char>, Seq<char>>(text@),
            Err(name) => expand(views(bindings@), s@) == Err::<Seq<char>, Seq<char>>(name@),
        },
{
    let n = s.len();
    let ghost b = views(bindings@);
    let mut out: Vec<char> = Vec::new();
    let mut pos: usize = 0;
    proof {
        match expand_from(b, s@, 0) {
            Ok(rest) => {
                assert(out@ + rest =~= rest);
            },
            Err(_) => {},
        }
    }
    while pos < n
        invariant
            pos <= n,
            n == s@.len(),
            b == views(bindings@),
            match expand_from(b, s@, pos as int) {
                Ok(rest) => expand_from(b, s@, 0) == Ok::<Seq<char>, Seq<char>>(out@ + rest),
                Err(name) => expand_from(b, s@, 0) == Err::<Seq<char>, Seq<char>>(name),
            },
        decreases n - pos,
    {
        let mut replaced = false;
        if s[pos] == '{' && pos + 1 < n && s[pos + 1] == '$' {
            let close = find_char(s, '}', pos + 2);
            if close < n {
                assert(reference_at(s@, pos as int));
                let name = slice_subrange(s, pos + 2, close);
                match lookup_value(bindings, name) {
                    Some(value) => {
                        let ghost before = out@;
                        push_text(&mut out, value.as_str());
                        proof {
                            match expand_from(b, s@, close + 1) {
                                Ok(rest) => {
                                    assert(before + (value@ + rest) =~= out@ + rest);
                                },
                                Err(_) => {},
                            }
                        }
                        pos = close + 1;
                        replaced = true;
                    },
                    None => {
                        return Err(text_of(name));
                    },
                }
            }
        }
        if !replaced {
            assert(!reference_at(s@, pos as int));
            let ghost before = out@;
            out.push(s[pos]);
            proof {
                match expand_from(b, s@, pos + 1) {
                    Ok(rest) => {
                        assert(before + (seq![s@[pos as int]] + rest) =~= out@ + rest);
                    },
                    Err(_) => {},
                }
            }
            pos += 1;
        }
    }
    proof {
        assert(out@ + Seq::<char>::empty() =~= out@);
    }
    Ok(out)
}

} // verus!
