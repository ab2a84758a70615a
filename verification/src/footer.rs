use vstd::prelude::*;
use vstd::string::StringExecFns;

use crate::filter::Filter;
use crate::filter::encode_spec;
use crate::state::State;
use crate::state::StateView;
use crate::text::dec_of;
use crate::text::u64_to_string;
use crate::views::count_where;
use crate::views::counts;

verus! {

/// The footer region's view data: the two counts over the whole, unfiltered
/// collection, the filter currently selected, and whether the fragment asks
/// to be swapped out of band.
#[derive(Clone, Copy, Debug)]
pub struct Footer {
    pub current_filter: Filter,
    pub num_active: usize,
    pub num_completed: usize,
    pub oob: bool,
}

/// The footer a session state projects to.
pub open spec fn footer_of(s: StateView, oob: bool) -> Footer {
    Footer {
        current_filter: s.filter,
        num_active: count_where(s.todos, false) as usize,
        num_completed: count_where(s.todos, true) as usize,
        oob,
    }
}

/// One filter selector entry: a link labelled with the filter's wire string,
/// marked selected when it is the current one, and a hidden input carrying
/// the same wire string for the client to submit.
pub open spec fn filter_li_html(current: Filter, f: Filter) -> Seq<char> {
    "<li><a"@ + (if current == f {
        " class=\"selected\""@
    } else {
        ""@
    }) + " hx-post=\"/select\">"@ + encode_spec(f)
        + "</a><input type=\"hidden\" name=\"filter\" value=\""@ + encode_spec(f) + "\"></li>"@
}

/// The footer region: the active count, the three filter selector entries,
/// and — only when some task is completed — the clear-completed affordance.
pub open spec fn footer_html(f: Footer) -> Seq<char> {
    "<footer class=\"footer\" id=\"footer\""@ + (if f.oob {
        " hx-swap-oob=\"true\""@
    } else {
        ""@
    }) + " hx-target=\"footer.footer\" hx-swap=\"outerHTML\"><span class=\"todo-count\"><strong>"@
        + dec_of(f.num_active as nat) + "</strong> item"@ + (if f.num_active != 1 {
        "s"@
    } else {
        ""@
    }) + " left</span><ul class=\"filters\" hx-include=\"next input\">"@
        + filter_li_html(f.current_filter, Filter::All)
        + filter_li_html(f.current_filter, Filter::Active)
        + filter_li_html(f.current_filter, Filter::Completed) + "</ul>"@
        + (if f.num_completed > 0 {
        "<button class=\"clear-completed\" hx-post=\"/clear-completed\">Clear completed</button>"@
    } else {
        ""@
    }) + "</footer>"@
}

fn render_filter_li(current: Filter, f: Filter) -> (r: String)
    ensures
        r@ == filter_li_html(current, f),
{
    let mut r = String::from_str("<li><a");
    r.append(if current == f { " class=\"selected\"" } else { "" });
    r.append(" hx-post=\"/select\">");
    let label = f.encode();
    r.append(label.as_str());
    r.append("</a><input type=\"hidden\" name=\"filter\" value=\"");
    r.append(label.as_str());
    r.append("\"></li>");
    r
}

impl Footer {
    /// Project a session state to its footer: both counts recomputed from
    /// the full collection.
    pub fn from_state(state: &State, oob: bool) -> (f: Footer)
        ensures
            f == footer_of(state@, oob),
    {
        let (active, done) = counts(state);
        Footer { current_filter: state.filter, num_active: active, num_completed: done, oob }
    }

    /// Render the footer region.
    pub fn render(&self) -> (r: String)
        ensures
            r@ == footer_html(*self),
    {
        let mut r = String::from_str("<footer class=\"footer\" id=\"footer\"");
        r.append(if self.oob { " hx-swap-oob=\"true\"" } else { "" });
        r.append(
            " hx-target=\"footer.footer\" hx-swap=\"outerHTML\"><span class=\"todo-count\"><strong>",
        );
        let n = u64_to_string(self.num_active as u64);
        proof {
            assert((self.num_active as u64) as nat == self.num_active as nat);
        }
        r.append(n.as_str());
        r.append("</strong> item");
        r.append(if self.num_active != 1 { "s" } else { "" });
        r.append(" left</span><ul class=\"filters\" hx-include=\"next input\">");
        let li_all = render_filter_li(self.current_filter, Filter::All);
        r.append(li_all.as_str());
        let li_active = render_filter_li(self.current_filter, Filter::Active);
        r.append(li_active.as_str());
        let li_completed = render_filter_li(self.current_filter, Filter::Completed);
        r.append(li_completed.as_str());
        r.append("</ul>");
        r.append(
            if self.num_completed > 0 {
                "<button class=\"clear-completed\" hx-post=\"/clear-completed\">Clear completed</button>"
            } else {
                ""
            },
        );
        r.append("</footer>");
        r
    }
}

} // verus!
