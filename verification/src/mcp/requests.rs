use vstd::prelude::*;

use crate::input::mouse::MouseAction;
use crate::text::{chars_equal, chars_of, chars_to_string, push_chars};

verus! {

/// The terminal sizes that can be asked for by name; any other name, or
/// none, gives 80x24.
pub open spec fn size_for(size: Option<Seq<char>>) -> (usize, usize) {
    match size {
        Some(s) => if s == seq!['1', '2', '0', 'x', '4', '0'] {
            (120, 40)
        } else if s == seq!['1', '6', '0', 'x', '4', '0'] {
            (160, 40)
        } else if s == seq!['2', '0', '0', 'x', '5', '0'] {
            (200, 50)
        } else {
            (80, 24)
        },
        None => (80, 24),
    }
}

/// A size asked for by name is the one that the name writes as columns,
/// `x` and rows; a name of no known size, or none, gives 80 columns by 24
/// rows.
pub proof fn lemma_size_names(s: Seq<char>)
    ensures
        ({
            let (w, h) = size_for(Some(s));
            (w, h) == (80usize, 24usize) || s == crate::text::decimal(w as nat) + seq!['x'] + crate::text::decimal(
                h as nat,
            )
        }),
        size_for(None) == (80usize, 24usize),
{
    reveal_with_fuel(crate::text::decimal, 4);
    let (w, h) = size_for(Some(s));
    if (w, h) != (80usize, 24usize) {
        assert(s =~= crate::text::decimal(w as nat) + seq!['x'] + crate::text::decimal(h as nat));
    }
}

pub open spec fn str_view(s: Option<&str>) -> Option<Seq<char>> {
    match s {
        Some(t) => Some(t@),
        None => None,
    }
}

/// The size of a terminal to create, from the size asked for.
pub fn terminal_size(size: Option<&str>) -> (dims: (usize, usize))
    ensures
        dims == size_for(str_view(size)),
{
    match size {
        Some(s) => {
            let chars = chars_of(s);
            if chars_equal(&chars, &vec!['1', '2', '0', 'x', '4', '0']) {
                (120, 40)
            } else if chars_equal(&chars, &vec!['1', '6', '0', 'x', '4', '0']) {
                (160, 40)
            } else if chars_equal(&chars, &vec!['2', '0', '0', 'x', '5', '0']) {
                (200, 50)
            } else {
                (80, 24)
            }
        },
        None => (80, 24),
    }
}

/// A coordinate of a mouse request: 0 when missing, else cut to 16 bits.
pub open spec fn coord(v: Option<u64>) -> u16 {
    match v {
        Some(x) => x as u16,
        None => 0,
    }
}

/// The mouse action a request names, or the message refusing an unknown
/// name.
pub open spec fn mouse_request(action: Seq<char>, col: Option<u64>, row: Option<u64>) -> Result<MouseAction, Seq<char>> {
    let (c, r) = (coord(col), coord(row));
    if action == seq!['l', 'e', 'f', 't', '_', 'c', 'l', 'i', 'c', 'k'] {
        Ok(MouseAction::LeftClick { col: c, row: r })
    } else if action == seq!['r', 'i', 'g', 'h', 't', '_', 'c', 'l', 'i', 'c', 'k'] {
        Ok(MouseAction::RightClick { col: c, row: r })
    } else if action == seq!['d', 'o', 'u', 'b', 'l', 'e', '_', 'c', 'l', 'i', 'c', 'k'] {
        Ok(MouseAction::DoubleClick { col: c, row: r })
    } else if action == seq!['m', 'o', 'v', 'e'] {
        Ok(MouseAction::MoveTo { col: c, row: r })
    } else if action == seq!['g', 'e', 't', '_', 'p', 'o', 's', 'i', 't', 'i', 'o', 'n'] {
        Ok(MouseAction::GetPosition)
    } else if action == seq!['s', 'e', 't', '_', 'p', 'o', 's', 'i', 't', 'i', 'o', 'n'] {
        Ok(MouseAction::SetPosition { col: c, row: r })
    } else {
        Err(seq!['U', 'n', 'k', 'n', 'o', 'w', 'n', ' ', 'a', 'c', 't', 'i', 'o', 'n', ':', ' '] + action)
    }
}

pub open spec fn mouse_result_view(r: Result<MouseAction, String>) -> Result<MouseAction, Seq<char>> {
    match r {
        Ok(a) => Ok(a),
        Err(m) => Err(m@),
    }
}

fn coord_exec(v: Option<u64>) -> (c: u16)
    ensures
        c == coord(v),
{
    match v {
        Some(x) => x as u16,
        None => 0,
    }
}

/// The mouse action of a request.
pub fn mouse_action(action: &str, col: Option<u64>, row: Option<u64>) -> (r: Result<MouseAction, String>)
    ensures
        mouse_result_view(r) == mouse_request(action@, col, row),
{
    let c = coord_exec(col);
    let r = coord_exec(row);
    let name = chars_of(action);
    if chars_equal(&name, &vec!['l', 'e', 'f', 't', '_', 'c', 'l', 'i', 'c', 'k']) {
        Ok(MouseAction::LeftClick { col: c, row: r })
    } else if chars_equal(&name, &vec!['r', 'i', 'g', 'h', 't', '_', 'c', 'l', 'i', 'c', 'k']) {
        Ok(MouseAction::RightClick { col: c, row: r })
    } else if chars_equal(&name, &vec!['d', 'o', 'u', 'b', 'l', 'e', '_', 'c', 'l', 'i', 'c', 'k']) {
        Ok(MouseAction::DoubleClick { col: c, row: r })
    } else if chars_equal(&name, &vec!['m', 'o', 'v', 'e']) {
        Ok(MouseAction::MoveTo { col: c, row: r })
    } else if chars_equal(&name, &vec!['g', 'e', 't', '_', 'p', 'o', 's', 'i', 't', 'i', 'o', 'n']) {
        Ok(MouseAction::GetPosition)
    } else if chars_equal(&name, &vec!['s', 'e', 't', '_', 'p', 'o', 's', 'i', 't', 'i', 'o', 'n']) {
        Ok(MouseAction::SetPosition { col: c, row: r })
    } else {
        let mut msg = vec!['U', 'n', 'k', 'n', 'o', 'w', 'n', ' ', 'a', 'c', 't', 'i', 'o', 'n', ':', ' '];
        push_chars(&mut msg, &name);
        Err(chars_to_string(&msg))
    }
}

/// How many lines a read of changes returns: the number asked for, kept
/// between 1 and 200, or 50 when none is asked for.
pub open spec fn max_lines_for(v: Option<u64>) -> usize {
    match v {
        Some(x) => if (x as usize) < 1 {
            1
        } else if (x as usize) > 200 {
            200
        } else {
            x as usize
        },
        None => 50,
    }
}

pub fn read_max_lines(max_lines: Option<u64>) -> (n: usize)
    ensures
        n == max_lines_for(max_lines),
{
    match max_lines {
        Some(x) => {
            let v = x as usize;
            if v < 1 {
                1
            } else if v > 200 {
                200
            } else {
                v
            }
        },
        None => 50,
    }
}

/// A scrollback request.
#[derive(Debug, Clone, PartialEq, Eq)]
pub enum ScrollAction {
    PageUp,
    PageDown,
    Search(String),
}

pub enum ScrollActionView {
    PageUp,
    PageDown,
    Search(Seq<char>),
}

pub open spec fn scroll_view(r: Result<ScrollAction, String>) -> Result<ScrollActionView, Seq<char>> {
    match r {
        Ok(ScrollAction::PageUp) => Ok(ScrollActionView::PageUp),
        Ok(ScrollAction::PageDown) => Ok(ScrollActionView::PageDown),
        Ok(ScrollAction::Search(t)) => Ok(ScrollActionView::Search(t@)),
        Err(m) => Err(m@),
    }
}

/// The scrollback request named by `action`: a search needs a non-empty
/// text; an unknown name is refused.
pub open spec fn scroll_request(action: Seq<char>, text: Option<Seq<char>>) -> Result<ScrollActionView, Seq<char>> {
    if action == seq!['p', 'a', 'g', 'e', '_', 'u', 'p'] {
        Ok(ScrollActionView::PageUp)
    } else if action == seq!['p', 'a', 'g', 'e', '_', 'd', 'o', 'w', 'n'] {
        Ok(ScrollActionView::PageDown)
    } else if action == seq!['s', 'e', 'a', 'r', 'c', 'h'] {
        match text {
            Some(t) => if t.len() > 0 {
                Ok(ScrollActionView::Search(t))
            } else {
                Err(missing_text_message())
            },
            None => Err(missing_text_message()),
        }
    } else {
        Err(seq![
            'U', 'n', 'k', 'n', 'o', 'w', 'n', ' ', 's', 'c', 'r', 'o', 'l', 'l', ' ', 'a', 'c', 't', 'i', 'o',
            'n', ':', ' '
        ] + action)
    }
}

pub open spec fn missing_text_message() -> Seq<char> {
    seq!['M', 'i', 's', 's', 'i', 'n', 'g', ' ', '\'', 't', 'e', 'x', 't', '\'', ' ', 'f', 'o', 'r', ' ', 's', 'e', 'a', 'r', 'c', 'h']
}

fn missing_text() -> (s: String)
    ensures
        s@ == missing_text_message(),
{
    let v = vec![
        'M', 'i', 's', 's', 'i', 'n', 'g', ' ', '\'', 't', 'e', 'x', 't', '\'', ' ', 'f', 'o', 'r', ' ', 's',
        'e', 'a', 'r', 'c', 'h',
    ];
    let s = chars_to_string(&v);
    assert(s@ =~= missing_text_message());
    s
}

/// The scrollback request of a tool call.
pub fn scroll_action(action: &str, text: Option<&str>) -> (r: Result<ScrollAction, String>)
    ensures
        scroll_view(r) == scroll_request(action@, str_view(text)),
{
    let name = chars_of(action);
    if chars_equal(&name, &vec!['p', 'a', 'g', 'e', '_', 'u', 'p']) {
        Ok(ScrollAction::PageUp)
    } else if chars_equal(&name, &vec!['p', 'a', 'g', 'e', '_', 'd', 'o', 'w', 'n']) {
        Ok(ScrollAction::PageDown)
    } else if chars_equal(&name, &vec!['s', 'e', 'a', 'r', 'c', 'h']) {
        match text {
            Some(t) => {
                let chars = chars_of(t);
                if chars.len() > 0 {
                    Ok(ScrollAction::Search(chars_to_string(&chars)))
                } else {
                    Err(missing_text())
                }
            },
            None => Err(missing_text()),
        }
    } else {
        let mut msg = vec![
            'U', 'n', 'k', 'n', 'o', 'w', 'n', ' ', 's', 'c', 'r', 'o', 'l', 'l', ' ', 'a', 'c', 't', 'i', 'o',
            'n', ':', ' ',
        ];
        push_chars(&mut msg, &name);
        Err(chars_to_string(&msg))
    }
}

} // verus!
