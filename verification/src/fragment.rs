use vstd::prelude::*;
use vstd::string::StringExecFns;

use crate::footer::Footer;
use crate::footer::footer_html;
use crate::footer::footer_of;
use crate::state::State;
use crate::state::StateView;
use crate::todos::List;
use crate::todos::list_html;

verus! {

/// The page region a fragment targets.
#[derive(Clone, Copy, Debug, PartialEq, Eq, Structural)]
pub enum Region {
    /// The whole task-list region.
    TaskList,
    /// The footer region.
    Footer,
    /// The list item of the task with this id.
    Task(u64),
    /// The trailing placeholder anchor inside the list.
    NextTodo,
}

/// How the client applies a fragment to its target region.
#[derive(Clone, Copy, Debug, PartialEq, Eq, Structural)]
pub enum SwapMode {
    /// The fragment wholesale replaces the element the region names.
    ReplaceTarget,
    /// The fragment's content is inserted immediately before the trailing
    /// placeholder, which is then replaced: the list grows by one item
    /// without being re-rendered.
    AppendThenReplacePlaceholder,
}

/// One self-describing response fragment: the region it targets, the swap
/// mode, whether it is out of band (updating a region other than the one the
/// triggering request directly targeted), and the rendered body.
#[derive(Debug)]
pub struct Fragment {
    pub region: Region,
    pub mode: SwapMode,
    pub oob: bool,
    pub body: String,
}

/// The mathematical content of a fragment.
#[verifier::ext_equal]
pub struct FragmentView {
    pub region: Region,
    pub mode: SwapMode,
    pub oob: bool,
    pub body: Seq<char>,
}

impl View for Fragment {
    type V = FragmentView;

    open spec fn view(&self) -> FragmentView {
        FragmentView { region: self.region, mode: self.mode, oob: self.oob, body: self.body@ }
    }
}

/// The sequence of fragment views behind a sequence of fragments.
pub open spec fn frag_views(fs: Seq<Fragment>) -> Seq<FragmentView> {
    fs.map_values(|f: Fragment| f@)
}

/// The footer fragment a mutation carries whenever it could have changed the
/// counts or the filter selection.
pub open spec fn footer_frag(s: StateView, oob: bool) -> FragmentView {
    FragmentView {
        region: Region::Footer,
        mode: SwapMode::ReplaceTarget,
        oob,
        body: footer_html(footer_of(s, oob)),
    }
}

/// The task-list fragment a mutation carries whenever it could have changed
/// which tasks are visible or their order.
pub open spec fn list_frag(s: StateView, oob: bool) -> FragmentView {
    FragmentView {
        region: Region::TaskList,
        mode: SwapMode::ReplaceTarget,
        oob,
        body: list_html(s, oob),
    }
}

/// Render the footer region of a state as a fragment.
pub fn footer_fragment(state: &State, oob: bool) -> (f: Fragment)
    ensures
        f@ == footer_frag(state@, oob),
{
    let footer = Footer::from_state(state, oob);
    Fragment {
        region: Region::Footer,
        mode: SwapMode::ReplaceTarget,
        oob,
        body: footer.render(),
    }
}

/// Render the task-list region of a state as a fragment.
pub fn list_fragment(state: &State, oob: bool) -> (f: Fragment)
    ensures
        f@ == list_frag(state@, oob),
{
    let list = List { state, oob };
    Fragment {
        region: Region::TaskList,
        mode: SwapMode::ReplaceTarget,
        oob,
        body: list.render(),
    }
}

/// A response body: the fragments' bodies, concatenated in order. Each
/// fragment describes its own target and swap mode, so only convention — not
/// correctness — puts the primary fragment first.
pub open spec fn concat_bodies(fs: Seq<FragmentView>) -> Seq<char>
    decreases fs.len(),
{
    if fs.len() == 0 {
        Seq::empty()
    } else {
        concat_bodies(fs.drop_last()) + fs.last().body
    }
}

/// Serialize a fragment list into one response body.
pub fn serialize_fragments(fs: &Vec<Fragment>) -> (r: String)
    ensures
        r@ == concat_bodies(frag_views(fs@)),
{
    let ghost all = frag_views(fs@);
    let mut r = String::new();
    proof {
        assert(all.take(0) =~= Seq::<FragmentView>::empty());
        assert(r@ =~= concat_bodies(all.take(0)));
    }
    let n = fs.len();
    let mut i: usize = 0;
    while i < n
        invariant
            i <= n,
            n == fs@.len(),
            all == frag_views(fs@),
            r@ == concat_bodies(all.take(i as int)),
        decreases n - i,
    {
        proof {
            assert(all.take(i as int + 1).drop_last() =~= all.take(i as int));
            assert(all.take(i as int + 1).last() == all[i as int]);
        }
        r.append(fs[i].body.as_str());
        i += 1;
    }
    proof {
        assert(all.take(n as int) =~= all);
    }
    r
}

} // verus!
