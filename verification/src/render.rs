//! The palette resolver and segment renderer: turns one workspace's ordinal,
//! focus flag, left neighbor and the pass's total count into the styled
//! markup block for that workspace. Pure: identical inputs give
//! byte-identical output, which is what makes the synchronizer's diff
//! meaningful.

use vstd::prelude::*;

use crate::config::Config;
use crate::numeral::spec_decimal;
use crate::numeral::to_decimal;
use crate::workspace::Workspace;

verus! {

use vstd::string::StringExecFns;

/// Index into the cyclic palette for ordinal `n`.
pub open spec fn color_index(n: int, palette_len: int) -> int {
    (n - 1) % palette_len
}

/// The background color the cyclic palette assigns to ordinal `n`.
pub open spec fn spec_color(config: Config, n: int) -> Seq<char> {
    config.background_colors@[color_index(n, config.background_colors@.len() as int)]@
}

/// The label text: the decimal ordinal, wrapped in a highlight-colored span
/// when the workspace is focused.
pub open spec fn spec_label(config: Config, n: int, focused: bool) -> Seq<char> {
    if focused {
        "<span color=\""@ + config.focused_foreground_color@ + "\">"@ + spec_decimal(n)
            + "</span>"@
    } else {
        spec_decimal(n)
    }
}

/// The four mutually exclusive shapes a capsule can take, selected from the
/// workspace's position in the pass.
#[derive(Clone, Copy, Debug, PartialEq, Eq, Structural)]
pub enum Shape {
    /// The only workspace of the pass.
    Sole,
    /// Leftmost of several.
    First,
    /// Rightmost of several.
    Last,
    /// Between two neighbors.
    Middle,
}

/// Shape selection from ordinal and the pass's total workspace count.
pub open spec fn spec_shape(n: int, total_count: int) -> Shape {
    if n >= total_count && total_count == 1 {
        Shape::Sole
    } else if n == 1 {
        Shape::First
    } else if n >= total_count {
        Shape::Last
    } else {
        Shape::Middle
    }
}

/// A rounded capsule with padded label and a trailing closing cap; the whole
/// of the sole shape, and the right end of the last shape.
pub open spec fn capsule_markup(color: Seq<char>, label: Seq<char>) -> Seq<char> {
    "<span background=\""@ + color + "\"> "@ + label
        + " </span><span size=\"large\" color=\""@ + color + "\">\u{e0bc}</span>\n"@
}

/// The opening shape of the leftmost of several workspaces: no wedge, no
/// trailing pad.
pub open spec fn first_markup(color: Seq<char>, label: Seq<char>) -> Seq<char> {
    "<span size=\"large\" background=\""@ + color + "\"> "@ + label + "</span>\n"@
}

/// The transition wedge from the left neighbor's color into this capsule's
/// color.
pub open spec fn wedge_markup(left: Seq<char>, color: Seq<char>) -> Seq<char> {
    "<span size=\"large\" background=\""@ + left + "\" color=\""@ + left
        + "\">\u{e0bc}</span><span size=\"large\" background=\""@ + left + "\" color=\""@
        + color + "\">\u{e0ba}</span>"@
}

/// The capsule body of a middle workspace: label without trailing pad and
/// without closing cap.
pub open spec fn middle_markup(color: Seq<char>, label: Seq<char>) -> Seq<char> {
    "<span background=\""@ + color + "\"> "@ + label + "</span>\n"@
}

/// Lifts the optional left-neighbor ordinal into the specification.
pub open spec fn opt_num(o: Option<i32>) -> Option<int> {
    match o {
        Option::Some(v) => Option::Some(v as int),
        Option::None => Option::None,
    }
}

/// The complete markup block for one workspace: the contract of the
/// renderer. The left transition color is the left neighbor's color when a
/// neighbor exists in this pass, else the workspace's own (no visible
/// transition at the start of the chain).
pub open spec fn spec_module_output(
    config: Config,
    n: int,
    focused: bool,
    last_num: Option<int>,
    total_count: int,
) -> Seq<char> {
    let color = spec_color(config, n);
    let left = match last_num {
        Option::Some(l) => spec_color(config, l),
        Option::None => color,
    };
    let label = spec_label(config, n, focused);
    match spec_shape(n, total_count) {
        Shape::Sole => capsule_markup(color, label),
        Shape::First => first_markup(color, label),
        Shape::Last => wedge_markup(left, color) + capsule_markup(color, label),
        Shape::Middle => wedge_markup(left, color) + middle_markup(color, label),
    }
}

/// Resolves the palette color of ordinal `num`.
pub fn background_color<'a>(config: &'a Config, num: i32) -> (color: &'a String)
    requires
        config.wf(),
        num >= 1,
    ensures
        color@ == spec_color(*config, num as int),
{
    let idx = ((num - 1) as usize) % config.background_colors.len();
    &config.background_colors[idx]
}

/// Selects which of the four shapes the workspace renders with.
pub fn shape_of(num: i32, total_count: i32) -> (shape: Shape)
    ensures
        shape == spec_shape(num as int, total_count as int),
{
    if num >= total_count && total_count == 1 {
        Shape::Sole
    } else if num == 1 {
        Shape::First
    } else if num >= total_count {
        Shape::Last
    } else {
        Shape::Middle
    }
}

fn capsule_string(color: &str, label: &str) -> (out: String)
    ensures
        out@ == capsule_markup(color@, label@),
{
    let mut out = String::from_str("<span background=\"");
    out.append(color);
    out.append("\"> ");
    out.append(label);
    out.append(" </span><span size=\"large\" color=\"");
    out.append(color);
    out.append("\">\u{e0bc}</span>\n");
    proof {
        assert(out@ =~= capsule_markup(color@, label@));
    }
    out
}

fn first_string(color: &str, label: &str) -> (out: String)
    ensures
        out@ == first_markup(color@, label@),
{
    let mut out = String::from_str("<span size=\"large\" background=\"");
    out.append(color);
    out.append("\"> ");
    out.append(label);
    out.append("</span>\n");
    proof {
        assert(out@ =~= first_markup(color@, label@));
    }
    out
}

fn wedge_string(left: &str, color: &str) -> (out: String)
    ensures
        out@ == wedge_markup(left@, color@),
{
    let mut out = String::from_str("<span size=\"large\" background=\"");
    out.append(left);
    out.append("\" color=\"");
    out.append(left);
    out.append("\">\u{e0bc}</span><span size=\"large\" background=\"");
    out.append(left);
    out.append("\" color=\"");
    out.append(color);
    out.append("\">\u{e0ba}</span>");
    proof {
        assert(out@ =~= wedge_markup(left@, color@));
    }
    out
}

fn middle_string(color: &str, label: &str) -> (out: String)
    ensures
        out@ == middle_markup(color@, label@),
{
    let mut out = String::from_str("<span background=\"");
    out.append(color);
    out.append("\"> ");
    out.append(label);
    out.append("</span>\n");
    proof {
        assert(out@ =~= middle_markup(color@, label@));
    }
    out
}

/// Renders the styled markup block for one workspace of the current pass.
/// `last_workspace_num` is the ordinal rendered just before this one in the
/// same pass, if any; `total_count` is the workspace count of the current
/// snapshot after padding, recomputed every pass.
pub fn workspace_module_output(
    config: &Config,
    workspace: &Workspace,
    last_workspace_num: Option<i32>,
    total_count: i32,
) -> (out: String)
    requires
        config.wf(),
        workspace.num >= 1,
        last_workspace_num matches Some(l) ==> l >= 1,
    ensures
        out@ == spec_module_output(
            *config,
            workspace.num as int,
            workspace.focused,
            opt_num(last_workspace_num),
            total_count as int,
        ),
{
    let mut label = to_decimal(workspace.num);
    if workspace.focused {
        let mut wrapped = String::from_str("<span color=\"");
        wrapped.append(config.focused_foreground_color.as_str());
        wrapped.append("\">");
        wrapped.append(label.as_str());
        wrapped.append("</span>");
        proof {
            assert(wrapped@ =~= spec_label(
                *config,
                workspace.num as int,
                workspace.focused,
            ));
        }
        label = wrapped;
    }
    let color = background_color(config, workspace.num);
    let left_color = match last_workspace_num {
        Some(l) => background_color(config, l),
        None => color,
    };
    match shape_of(workspace.num, total_count) {
        Shape::Sole => capsule_string(color.as_str(), label.as_str()),
        Shape::First => first_string(color.as_str(), label.as_str()),
        Shape::Last => {
            let mut out = wedge_string(left_color.as_str(), color.as_str());
            let tail = capsule_string(color.as_str(), label.as_str());
            out.append(tail.as_str());
            out
        },
        Shape::Middle => {
            let mut out = wedge_string(left_color.as_str(), color.as_str());
            let tail = middle_string(color.as_str(), label.as_str());
            out.append(tail.as_str());
            out
        },
    }
}

/// The palette is cyclic: ordinal `n` takes the palette entry at
/// `(n - 1) % len`, and moving a whole palette length along the ordinals
/// comes back to the same color.
pub proof fn lemma_color_cyclic(config: Config, n: int)
    requires
        config.wf(),
        n >= 1,
    ensures
        spec_color(config, n) == config.background_colors@[(n - 1) % (
        config.background_colors@.len() as int)]@,
        spec_color(config, n + config.background_colors@.len()) == spec_color(config, n),
{
    let len = config.background_colors@.len() as int;
    vstd::arithmetic::div_mod::lemma_mod_add_multiples_vanish(n - 1, len);
}

/// With a single workspace in the pass, every ordinal renders through the
/// sole-workspace shape, whatever its focus state.
pub proof fn lemma_sole_shape(n: int)
    requires
        n >= 1,
    ensures
        spec_shape(n, 1) == Shape::Sole,
{
}

/// The whole markup of a pass of one workspace is the sole capsule, for
/// every focus state and whatever left neighbor is claimed.
pub proof fn lemma_sole_render(config: Config, n: int, focused: bool, last_num: Option<int>)
    requires
        n >= 1,
    ensures
        spec_module_output(config, n, focused, last_num, 1) == capsule_markup(
            spec_color(config, n),
            spec_label(config, n, focused),
        ),
{
}

} // verus!
