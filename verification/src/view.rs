//! What the wallet app's screen shows, as far as it is decided by the app's state: which
//! layout fits the terminal, how tall the fields panel is, how each field reads (secrets
//! masked), and where the cursor stands.

use vstd::prelude::*;

use crate::text::{concat3, push_char};
use crate::types::{FieldView, Focus, FormField};

verus! {

/// Whether the terminal is too small for the large logo.
pub open spec fn spec_is_compact(width: u16, height: u16) -> bool {
    height < 28 || width < 90
}

/// Whether the terminal is too small for the large logo.
pub fn is_compact(width: u16, height: u16) -> (r: bool)
    ensures
        r == spec_is_compact(width, height),
{
    height < 28 || width < 90
}

/// Whether the body area is too small to put the list of forms beside the form, so that
/// they stand one above the other.
pub fn is_stacked_body(width: u16, height: u16) -> (r: bool)
    ensures
        r == (height < 12 || width < 95),
{
    height < 12 || width < 95
}

/// The height of the hero banner.
pub fn hero_height(compact: bool) -> (r: u16)
    ensures
        r == if compact {
            6u16
        } else {
            10u16
        },
{
    if compact {
        6
    } else {
        10
    }
}

/// The height of the fields panel for a form with `field_count` fields: a line per field
/// (two in the full layout) and the borders, but at least 4 lines (6 in the full layout).
/// The count is taken modulo 2^16, as the panel's `u16` height is.
pub fn fields_panel_height(field_count: usize, compact: bool) -> (r: u16)
    requires
        compact ==> (field_count as u16) + 2 <= u16::MAX,
        !compact ==> (field_count as u16) * 2 + 2 <= u16::MAX,
    ensures
        compact ==> r == if (field_count as u16) + 2 > 4 {
            (field_count as u16) + 2
        } else {
            4
        },
        !compact ==> r == if (field_count as u16) * 2 + 2 > 6 {
            (field_count as u16) * 2 + 2
        } else {
            6
        },
{
    #[verifier::truncate]
    let count = field_count as u16;
    if compact {
        let h = count + 2;
        if h > 4 {
            h
        } else {
            4
        }
    } else {
        let h = count * 2 + 2;
        if h > 6 {
            h
        } else {
            6
        }
    }
}

/// `n` stars.
pub open spec fn spec_stars(n: nat) -> Seq<char> {
    Seq::new(n, |i: int| '*')
}

/// A value as the screen shows it: a secret as one star per character, but at least four.
pub open spec fn spec_masked(value: Seq<char>, sensitive: bool) -> Seq<char> {
    if sensitive {
        spec_stars(if value.len() > 4 {
            value.len()
        } else {
            4
        })
    } else {
        value
    }
}

/// How a field reads on the screen: its hint while it is empty, its value otherwise, with
/// a secret masked.
pub open spec fn spec_field_display(f: FieldView) -> Seq<char> {
    if f.value.len() == 0 {
        f.hint
    } else {
        spec_masked(f.value, f.sensitive)
    }
}

/// The text that the cursor follows in a field: nothing while the field is empty, its
/// value otherwise, with a secret masked.
pub open spec fn spec_cursor_text(f: FieldView) -> Seq<char> {
    if f.value.len() == 0 {
        Seq::empty()
    } else {
        spec_masked(f.value, f.sensitive)
    }
}

/// A secret that has been typed never shows on the screen: the field reads as stars only,
/// at least four of them, and so does the text the cursor follows.
pub proof fn lemma_secret_masked(f: FieldView)
    requires
        f.sensitive,
        f.value.len() > 0,
    ensures
        spec_field_display(f).len() >= 4,
        forall|i: int| 0 <= i < spec_field_display(f).len() ==> #[trigger] spec_field_display(f)[i] == '*',
        spec_cursor_text(f) == spec_field_display(f),
{
}

fn masked(value: &String, sensitive: bool) -> (r: String)
    ensures
        r@ == spec_masked(value@, sensitive),
{
    if sensitive {
        let n = value.as_str().unicode_len();
        let count = if n > 4 {
            n
        } else {
            4
        };
        let mut r = String::new();
        let mut i: usize = 0;
        while i < count
            invariant
                i <= count,
                count == if value@.len() > 4 {
                    value@.len()
                } else {
                    4
                },
                r@ == spec_stars(i as nat),
            decreases count - i,
        {
            push_char(&mut r, '*');
            i = i + 1;
            assert(r@ =~= spec_stars(i as nat));
        }
        r
    } else {
        value.clone()
    }
}

/// How `field` reads on the screen.
pub fn field_display_text(field: &FormField) -> (r: String)
    ensures
        r@ == spec_field_display(field@),
{
    if field.value.as_str().unicode_len() == 0 {
        String::from_str(field.hint)
    } else {
        masked(&field.value, field.sensitive)
    }
}

/// The text that the cursor follows in `field`.
pub fn cursor_text(field: &FormField) -> (r: String)
    ensures
        r@ == spec_cursor_text(field@),
{
    if field.value.as_str().unicode_len() == 0 {
        String::new()
    } else {
        masked(&field.value, field.sensitive)
    }
}

/// Where the cursor stands in the fields panel whose area starts at column `area_x` and
/// row `area_y` and ends before column `area_right`: after the selected field's label
/// (its length in bytes), the separator and the text it follows, but two columns short of
/// the panel's right edge at most; on the field's line, two lines per field below the
/// border. Lengths are taken modulo 2^16, as the screen's `u16` positions are.
pub fn cursor_position(
    area_x: u16,
    area_y: u16,
    area_right: u16,
    label_len: usize,
    text_len: usize,
    selected_field: usize,
) -> (r: (u16, u16))
    requires
        (label_len as u16) + 5 + (text_len as u16) <= u16::MAX,
        (selected_field as u16) * 2 + 1 <= u16::MAX,
    ensures
        ({
            let offset = ((label_len as u16) + 5 + (text_len as u16)) as u16;
            let limit = area_right.saturating_sub(2);
            r.0 == if area_x.saturating_add(offset) < limit {
                area_x.saturating_add(offset)
            } else {
                limit
            }
        }),
        r.1 == area_y.saturating_add((1 + (selected_field as u16) * 2) as u16),
{
    #[verifier::truncate]
    let label = label_len as u16;
    #[verifier::truncate]
    let text = text_len as u16;
    #[verifier::truncate]
    let field = selected_field as u16;
    let x = area_x.saturating_add(label + 5 + text);
    let limit = area_right.saturating_sub(2);
    let column = if x < limit {
        x
    } else {
        limit
    };
    let row = field * 2;
    (column, area_y.saturating_add(1 + row))
}

/// The title of the list of forms.
pub fn actions_title(focus: Focus) -> (r: &'static str)
    ensures
        r@ == if focus == Focus::Actions {
            " Wallet Actions [focused] "@
        } else {
            " Wallet Actions "@
        },
{
    if focus == Focus::Actions {
        " Wallet Actions [focused] "
    } else {
        " Wallet Actions "
    }
}

/// The title of the fields panel.
pub fn fields_title(focus: Focus) -> (r: &'static str)
    ensures
        r@ == if focus == Focus::Fields {
            " Wallet Fields [focused] "@
        } else {
            " Wallet Fields "@
        },
{
    if focus == Focus::Fields {
        " Wallet Fields [focused] "
    } else {
        " Wallet Fields "
    }
}

/// The title of the output panel, naming the last command.
pub fn output_title(last_command: &str) -> (r: String)
    ensures
        r@ == " Output | "@ + last_command@ + " "@,
{
    concat3(" Output | ", last_command, " ")
}

} // verus!
