use vstd::prelude::*;
use crate::graph::StoryGraph;

verus! {

/// The decimal digit character for `d`.
pub open spec fn digit_char(d: int) -> char {
    if d == 0 {
        '0'
    } else if d == 1 {
        '1'
    } else if d == 2 {
        '2'
    } else if d == 3 {
        '3'
    } else if d == 4 {
        '4'
    } else if d == 5 {
        '5'
    } else if d == 6 {
        '6'
    } else if d == 7 {
        '7'
    } else if d == 8 {
        '8'
    } else {
        '9'
    }
}

/// The decimal rendering of `n`, most significant digit first.
pub open spec fn dec_of(n: int) -> Seq<char>
    decreases n,
{
    if n < 10 {
        seq![digit_char(n)]
    } else {
        dec_of(n / 10).push(digit_char(n % 10))
    }
}

fn digit_str(d: u64) -> (r: &'static str)
    requires
        d < 10,
    ensures
        r@ == seq![digit_char(d as int)],
{
    proof {
        reveal_strlit("0");
        reveal_strlit("1");
        reveal_strlit("2");
        reveal_strlit("3");
        reveal_strlit("4");
        reveal_strlit("5");
        reveal_strlit("6");
        reveal_strlit("7");
        reveal_strlit("8");
        reveal_strlit("9");
    }
    if d == 0 {
        "0"
    } else if d == 1 {
        "1"
    } else if d == 2 {
        "2"
    } else if d == 3 {
        "3"
    } else if d == 4 {
        "4"
    } else if d == 5 {
        "5"
    } else if d == 6 {
        "6"
    } else if d == 7 {
        "7"
    } else if d == 8 {
        "8"
    } else {
        "9"
    }
}

/// Render `n` in decimal.
pub fn u64_to_dec_string(n: u64) -> (r: String)
    ensures
        r@ == dec_of(n as int),
    decreases n,
{
    if n < 10 {
        digit_str(n).to_owned()
    } else {
        let mut s = u64_to_dec_string(n / 10);
        s.append(digit_str(n % 10));
        proof {
            assert(s@ =~= dec_of(n as int));
        }
        s
    }
}

/// How one node shows up in a rendered path: its name when it has one,
/// its position among its siblings otherwise.
pub open spec fn node_comp_chars(g: StoryGraph, id: int) -> Seq<char> {
    match g.nodes@[id].name {
        Some(n) => n@,
        None => dec_of(g.nodes@[id].index_in_parent as int),
    }
}

/// The dotted path of node `id` from the root; the root itself renders
/// as the empty path.
pub open spec fn path_chars_of(g: StoryGraph, id: int) -> Seq<char>
    decreases id,
{
    if 0 <= id < g.nodes@.len() {
        match g.nodes@[id].parent {
            Some(p) => if p < id {
                if path_chars_of(g, p as int).len() == 0 {
                    node_comp_chars(g, id)
                } else {
                    path_chars_of(g, p as int) + seq!['.'] + node_comp_chars(g, id)
                }
            } else {
                Seq::empty()
            },
            None => Seq::empty(),
        }
    } else {
        Seq::empty()
    }
}

fn node_comp_string(g: &StoryGraph, id: usize) -> (r: String)
    requires
        g.wf(),
        g.is_node(id as int),
    ensures
        r@ == node_comp_chars(*g, id as int),
{
    match &g.nodes[id].name {
        Option::Some(n) => n.clone(),
        Option::None => u64_to_dec_string(g.nodes[id].index_in_parent as u64),
    }
}

/// Render the dotted path of node `id` from the root.
pub fn path_string_of(g: &StoryGraph, id: usize) -> (r: String)
    requires
        g.wf(),
        g.is_node(id as int),
    ensures
        r@ == path_chars_of(*g, id as int),
    decreases id,
{
    match &g.nodes[id].parent {
        Option::Some(p) => {
            let mut s = path_string_of(g, *p);
            let comp = node_comp_string(g, id);
            if s.as_str().is_empty() {
                comp
            } else {
                proof {
                    reveal_strlit(".");
                    assert(("."@) =~= seq!['.']);
                }
                s.append(".");
                s.append(comp.as_str());
                proof {
                    assert(s@ =~= path_chars_of(*g, id as int));
                }
                s
            }
        },
        Option::None => String::new(),
    }
}

} // verus!
