//! The application state machine: the single owner of what the screen
//! shows. It advances on worker responses and on keys, and leaves the
//! requests and side effects it decides on in an outbox that the driver
//! drains.
use vstd::prelude::*;
use vstd::string::*;
use crate::api::{ApiRequest, ApiResponse};
use crate::instances::{
    arranged_rows, count_visible, row_view, rows_view, sorted_instances, visible_rows,
};
use crate::models::{ClusterInfo, InstanceInfo, TierInfo, TokenEntry};
use crate::text::{contains_text, has_infix, lower_of, lowercase, pop_char, push_char};
use crate::tree::{
    build_tree, contains_index, contains_pair, lemma_expand_tier_inserts_block,
    lemma_tier_block_of_collapsed, lemma_tier_row_is_unique, lemma_tree_grows, tier_block, tree_of,
};
use crate::view::{InputMode, LoginFocus, SortField, SortOrder, TreeItem, ViewMode};

verus! {

/// Something the state machine asks the driver to do.
#[derive(Debug)]
pub enum Effect {
    /// Post this request to the worker.
    Send(ApiRequest),
    /// Delete the saved session for this server from the token store.
    DeleteSavedToken,
}

/// A key press, as the state machine sees it.
#[derive(Debug, Clone, Copy, PartialEq, Eq, Structural)]
pub enum Key {
    Char(char),
    /// A character typed with Control held.
    Ctrl(char),
    Up,
    Down,
    Left,
    Right,
    Home,
    End,
    PageUp,
    PageDown,
    Enter,
    Esc,
    Tab,
    BackTab,
    Backspace,
    Other,
}

/// Rows in a page for page-wise navigation.
pub const PAGE_HEIGHT: usize = 20;

pub struct App {
    pub running: bool,
    pub base_url: String,
    /// Requests and side effects decided on and not yet carried out, oldest
    /// first.
    pub outbox: Vec<Effect>,
    pub loading: bool,
    pub pending_init: bool,
    pub input_mode: InputMode,
    pub auth_enabled: bool,
    pub has_saved_token: bool,
    pub login_username: String,
    pub login_password: String,
    pub login_focus: LoginFocus,
    pub login_remember_me: bool,
    pub login_show_password: bool,
    pub login_error: Option<String>,
    pub cluster_info: Option<ClusterInfo>,
    pub tiers: Vec<TierInfo>,
    pub last_error: Option<String>,
    /// Indices of expanded tiers; stale ones are harmless.
    pub expanded_tiers: Vec<usize>,
    /// (tier, replicaset) index pairs of expanded replicasets.
    pub expanded_replicasets: Vec<(usize, usize)>,
    pub tree_items: Vec<TreeItem>,
    pub selected_index: usize,
    pub show_detail: bool,
    pub view_mode: ViewMode,
    pub sort_field: SortField,
    pub sort_order: SortOrder,
    pub filter_text: String,
    pub filter_active: bool,
}

/// The requests of a data refresh.
pub open spec fn refresh_effects() -> Seq<Effect> {
    seq![Effect::Send(ApiRequest::GetClusterInfo), Effect::Send(ApiRequest::GetTiers)]
}

/// An error text that marks an expired or refused session.
pub open spec fn is_auth_failure(e: Seq<char>) -> bool {
    has_infix(e, "401"@) || has_infix(lower_of(e), "unauthorized"@)
}

/// What the login form says when a saved session was refused.
pub open spec fn session_expired_text() -> Seq<char> {
    "Session expired, please login again"@
}

/// The number of replicasets in the first `n` tiers.
pub open spec fn replicasets_upto(tiers: Seq<TierInfo>, n: nat) -> nat
    decreases n,
{
    if n == 0 {
        0
    } else {
        replicasets_upto(tiers, (n - 1) as nat) + tiers[n - 1].replicasets@.len()
    }
}

/// `n`, or the largest `usize` if it is larger.
pub open spec fn saturate(n: nat) -> nat {
    if n <= usize::MAX {
        n
    } else {
        usize::MAX as nat
    }
}

/// `sel` clamped into `[0, count)`, or left as it is when nothing is listed.
pub open spec fn clamp_selection(sel: usize, count: nat) -> usize {
    if count > 0 && sel >= count {
        (count - 1) as usize
    } else {
        sel
    }
}

/// A selection clamped after a refresh lies within the listed rows: one
/// beyond the last row lands on the last row, one inside stays, and an
/// empty list leaves it as it was, so it never wraps below zero.
pub proof fn lemma_clamped_selection_in_range(sel: usize, count: nat)
    requires
        count <= usize::MAX,
    ensures
        count > 0 ==> clamp_selection(sel, count) < count,
        count > 0 && sel >= count ==> clamp_selection(sel, count) == count - 1,
        sel < count ==> clamp_selection(sel, count) == sel,
        count == 0 ==> clamp_selection(sel, count) == sel,
{
}

/// Whether an error text marks an expired or refused session: it holds
/// "401", or "unauthorized" in any case.
pub fn auth_failure(e: &str) -> (r: bool)
    ensures
        r == is_auth_failure(e@),
{
    if contains_text(e, "401") {
        return true;
    }
    let lower = lowercase(e);
    contains_text(lower.as_str(), "unauthorized")
}

fn prefixed(prefix: &str, e: &str) -> (r: String)
    ensures
        r@ == prefix@ + e@,
{
    let mut m = String::from_str(prefix);
    m.append(e);
    m
}

/// Selection after moving down one row, wrapping to the top.
pub open spec fn next_index(sel: usize, count: nat) -> usize {
    if count > 0 {
        ((sel + 1) % (count as int)) as usize
    } else {
        sel
    }
}

/// Selection after moving up one row, wrapping to the bottom.
pub open spec fn previous_index(sel: usize, count: nat) -> usize {
    if count > 0 {
        if sel == 0 {
            (count - 1) as usize
        } else {
            (sel - 1) as usize
        }
    } else {
        sel
    }
}

/// Selection after moving down `step` rows, stopping at the last row.
pub open spec fn forward_index(sel: usize, count: nat, step: usize) -> usize {
    if count > 0 {
        if sel + step >= count {
            (count - 1) as usize
        } else {
            (sel + step) as usize
        }
    } else {
        sel
    }
}

/// Selection after moving up `step` rows, stopping at the first row.
pub open spec fn backward_index(sel: usize, count: nat, step: usize) -> usize {
    if count > 0 {
        if sel >= step {
            (sel - step) as usize
        } else {
            0
        }
    } else {
        sel
    }
}

/// The expansion set with `x` added, kept free of repeats.
pub open spec fn with_index(v: Seq<usize>, x: usize) -> Seq<usize> {
    if v.contains(x) {
        v
    } else {
        v.push(x)
    }
}

pub open spec fn with_pair(v: Seq<(usize, usize)>, x: (usize, usize)) -> Seq<(usize, usize)> {
    if v.contains(x) {
        v
    } else {
        v.push(x)
    }
}

pub open spec fn index_kept(x: usize) -> spec_fn(usize) -> bool {
    |y: usize| y != x
}

pub open spec fn pair_kept(x: (usize, usize)) -> spec_fn((usize, usize)) -> bool {
    |y: (usize, usize)| y != x
}

pub open spec fn tier_pair_kept(t: usize) -> spec_fn((usize, usize)) -> bool {
    |y: (usize, usize)| y.0 != t
}

proof fn lemma_with_index_grows(v: Seq<usize>, x: usize)
    ensures
        forall|y: usize| v.contains(y) ==> with_index(v, x).contains(y),
{
    assert forall|y: usize| v.contains(y) implies with_index(v, x).contains(y) by {
        if !v.contains(x) {
            let j = choose|j: int| 0 <= j < v.len() && v[j] == y;
            assert(v.push(x)[j] == y);
        }
    }
}

proof fn lemma_with_pair_grows(v: Seq<(usize, usize)>, x: (usize, usize))
    ensures
        forall|y: (usize, usize)| v.contains(y) ==> with_pair(v, x).contains(y),
{
    assert forall|y: (usize, usize)| v.contains(y) implies with_pair(v, x).contains(y) by {
        if !v.contains(x) {
            let j = choose|j: int| 0 <= j < v.len() && v[j] == y;
            assert(v.push(x)[j] == y);
        }
    }
}

/// Removes every copy of `x`.
pub open spec fn without_index(v: Seq<usize>, x: usize) -> Seq<usize> {
    v.filter(index_kept(x))
}

/// Removes every copy of `x`.
pub open spec fn without_pair(v: Seq<(usize, usize)>, x: (usize, usize)) -> Seq<(usize, usize)> {
    v.filter(pair_kept(x))
}

/// Removes every pair of tier `t`.
pub open spec fn without_tier_pairs(v: Seq<(usize, usize)>, t: usize) -> Seq<(usize, usize)> {
    v.filter(tier_pair_kept(t))
}

fn remove_index(v: &Vec<usize>, x: usize) -> (r: Vec<usize>)
    ensures
        r@ == without_index(v@, x),
{
    let ghost p = index_kept(x);
    let mut out: Vec<usize> = Vec::new();
    let mut i: usize = 0;
    while i < v.len()
        invariant
            i <= v.len(),
            p == index_kept(x),
            out@ == v@.take(i as int).filter(p),
        decreases v.len() - i,
    {
        proof {
            assert(v@.take(i + 1) =~= v@.take(i as int).push(v@[i as int]));
            v@.take(i as int).lemma_filter_push(v@[i as int], p);
        }
        if v[i] != x {
            out.push(v[i]);
        }
        i = i + 1;
    }
    assert(v@.take(v.len() as int) =~= v@);
    out
}

/// Removes every pair of tier `t` when `whole_tier`, else the pair `(t, r)`.
fn remove_pairs(v: &Vec<(usize, usize)>, t: usize, r: usize, whole_tier: bool) -> (out: Vec<
    (usize, usize),
>)
    ensures
        whole_tier ==> out@ == without_tier_pairs(v@, t),
        !whole_tier ==> out@ == without_pair(v@, (t, r)),
{
    let ghost p = if whole_tier {
        tier_pair_kept(t)
    } else {
        pair_kept((t, r))
    };
    let mut out: Vec<(usize, usize)> = Vec::new();
    let mut i: usize = 0;
    while i < v.len()
        invariant
            i <= v.len(),
            p == (if whole_tier {
                tier_pair_kept(t)
            } else {
                pair_kept((t, r))
            }),
            out@ == v@.take(i as int).filter(p),
        decreases v.len() - i,
    {
        proof {
            assert(v@.take(i + 1) =~= v@.take(i as int).push(v@[i as int]));
            v@.take(i as int).lemma_filter_push(v@[i as int], p);
        }
        let keep = if whole_tier {
            v[i].0 != t
        } else {
            !(v[i].0 == t && v[i].1 == r)
        };
        if keep {
            out.push(v[i]);
        }
        i = i + 1;
    }
    assert(v@.take(v.len() as int) =~= v@);
    out
}

/// The login field after `f`, cycling.
pub open spec fn next_focus(f: LoginFocus) -> LoginFocus {
    match f {
        LoginFocus::Username => LoginFocus::Password,
        LoginFocus::Password => LoginFocus::RememberMe,
        LoginFocus::RememberMe => LoginFocus::Username,
    }
}

/// The login field before `f`, cycling.
pub open spec fn previous_focus(f: LoginFocus) -> LoginFocus {
    match f {
        LoginFocus::Username => LoginFocus::RememberMe,
        LoginFocus::Password => LoginFocus::Username,
        LoginFocus::RememberMe => LoginFocus::Password,
    }
}

/// The character a key types, if any: with Control held too, when no
/// binding takes the key.
pub open spec fn typed(key: Key) -> Option<char> {
    match key {
        Key::Char(c) => Some(c),
        Key::Ctrl(c) => Some(c),
        _ => None,
    }
}

/// The view mode a key selects directly or by cycling, if any.
pub open spec fn mode_for_key(key: Key, current: ViewMode) -> Option<ViewMode> {
    if key == Key::Char('g') {
        Some(
            match current {
                ViewMode::Tiers => ViewMode::Replicasets,
                ViewMode::Replicasets => ViewMode::Instances,
                ViewMode::Instances => ViewMode::Tiers,
            },
        )
    } else if key == Key::Char('1') {
        Some(ViewMode::Tiers)
    } else if key == Key::Char('2') {
        Some(ViewMode::Replicasets)
    } else if key == Key::Char('3') {
        Some(ViewMode::Instances)
    } else {
        None
    }
}

/// A key as the login form reads it: Control matters only with 's'.
pub open spec fn login_key(key: Key) -> Key {
    match key {
        Key::Ctrl(c) => if c == 's' {
            key
        } else {
            Key::Char(c)
        },
        _ => key,
    }
}

/// A key as the main view reads it: Control matters only with 'c', 'd',
/// 'u', 'f' and 'b'.
pub open spec fn view_key(key: Key) -> Key {
    match key {
        Key::Ctrl(c) => if c == 'c' || c == 'd' || c == 'u' || c == 'f' || c == 'b' {
            key
        } else {
            Key::Char(c)
        },
        _ => key,
    }
}

fn to_login_key(key: Key) -> (r: Key)
    ensures
        r == login_key(key),
{
    match key {
        Key::Ctrl(c) => if c == 's' {
            key
        } else {
            Key::Char(c)
        },
        _ => key,
    }
}

fn to_view_key(key: Key) -> (r: Key)
    ensures
        r == view_key(key),
{
    match key {
        Key::Ctrl(c) => if c == 'c' || c == 'd' || c == 'u' || c == 'f' || c == 'b' {
            key
        } else {
            Key::Char(c)
        },
        _ => key,
    }
}

fn typed_char(key: Key) -> (r: Option<char>)
    ensures
        r == typed(key),
{
    match key {
        Key::Char(c) => Some(c),
        Key::Ctrl(c) => Some(c),
        _ => None,
    }
}

/// The number of rows a view mode lists, given the Tiers view's rows.
pub open spec fn count_for(
    mode: ViewMode,
    tree: Seq<TreeItem>,
    tiers: Seq<TierInfo>,
    filter_text: Seq<char>,
) -> nat {
    match mode {
        ViewMode::Tiers => tree.len(),
        ViewMode::Replicasets => saturate(replicasets_upto(tiers, tiers.len())),
        ViewMode::Instances => visible_rows(tiers, lower_of(filter_text)).len(),
    }
}

/// The rows and the selection that a rebuild produces.
pub open spec fn rebuild_result(
    tiers: Seq<TierInfo>,
    expanded_tiers: Seq<usize>,
    expanded_rs: Seq<(usize, usize)>,
    mode: ViewMode,
    filter_text: Seq<char>,
    sel: usize,
) -> (Seq<TreeItem>, usize) {
    let tree = tree_of(tiers, expanded_tiers, expanded_rs);
    (tree, clamp_selection(sel, count_for(mode, tree, tiers, filter_text)))
}

/// Rebuilding a second time with unchanged data and view state yields the
/// same rows and the same selection as the first rebuild.
pub proof fn lemma_rebuild_idempotent(
    tiers: Seq<TierInfo>,
    expanded_tiers: Seq<usize>,
    expanded_rs: Seq<(usize, usize)>,
    mode: ViewMode,
    filter_text: Seq<char>,
    sel: usize,
)
    ensures
        ({
            let first = rebuild_result(tiers, expanded_tiers, expanded_rs, mode, filter_text, sel);
            rebuild_result(tiers, expanded_tiers, expanded_rs, mode, filter_text, first.1) == first
        }),
{
}

/// The view state after expanding the selected row (see `expand_selected`).
pub open spec fn after_expand(o: App, n: App) -> bool {
    let on_row = o.view_mode == ViewMode::Tiers && o.selected_index < o.tree_items@.len();
    &&& n.same_session(o)
    &&& n.same_status(o)
    &&& n.tiers == o.tiers
    &&& n.cluster_info == o.cluster_info
    &&& n.view_mode == o.view_mode
    &&& n.filter_text == o.filter_text
    &&& n.filter_active == o.filter_active
    &&& n.sort_field == o.sort_field
    &&& n.sort_order == o.sort_order
    &&& if on_row && o.tree_items@[o.selected_index as int] is Tier {
        let t = o.tree_items@[o.selected_index as int]->Tier_0;
        &&& n.expanded_tiers@ == with_index(o.expanded_tiers@, t)
        &&& n.expanded_replicasets == o.expanded_replicasets
        &&& n.tree_items@ == tree_of(o.tiers@, n.expanded_tiers@, n.expanded_replicasets@)
        &&& n.selected_index == clamp_selection(o.selected_index, n.count_of())
        &&& n.show_detail == o.show_detail
    } else if on_row && o.tree_items@[o.selected_index as int] is Replicaset {
        let t = o.tree_items@[o.selected_index as int]->Replicaset_0;
        let r = o.tree_items@[o.selected_index as int]->Replicaset_1;
        &&& n.expanded_tiers == o.expanded_tiers
        &&& n.expanded_replicasets@ == with_pair(o.expanded_replicasets@, (t, r))
        &&& n.tree_items@ == tree_of(o.tiers@, n.expanded_tiers@, n.expanded_replicasets@)
        &&& n.selected_index == clamp_selection(o.selected_index, n.count_of())
        &&& n.show_detail == o.show_detail
    } else {
        &&& n.expanded_tiers == o.expanded_tiers
        &&& n.expanded_replicasets == o.expanded_replicasets
        &&& n.tree_items == o.tree_items
        &&& n.selected_index == o.selected_index
        &&& n.show_detail == (o.show_detail || on_row || o.view_mode == ViewMode::Instances)
    }
    &&& o.wf() ==> n.wf() && n.selected_index == o.selected_index
}

/// The view state after collapsing at the selected row (see
/// `collapse_selected`).
pub open spec fn after_collapse(o: App, n: App) -> bool {
    &&& n.same_session(o)
    &&& n.same_status(o)
    &&& n.tiers == o.tiers
    &&& n.cluster_info == o.cluster_info
    &&& n.view_mode == o.view_mode
    &&& n.filter_text == o.filter_text
    &&& n.filter_active == o.filter_active
    &&& n.sort_field == o.sort_field
    &&& n.sort_order == o.sort_order
    &&& n.show_detail == o.show_detail
    &&& if o.view_mode == ViewMode::Tiers && o.selected_index < o.tree_items@.len() {
        &&& n.tree_items@ == tree_of(o.tiers@, n.expanded_tiers@, n.expanded_replicasets@)
        &&& n.selected_index == clamp_selection(o.selected_index, n.count_of())
        &&& n.wf()
        &&& match o.tree_items@[o.selected_index as int] {
            TreeItem::Tier(t) => {
                &&& n.expanded_tiers@ == without_index(o.expanded_tiers@, t)
                &&& n.expanded_replicasets@ == without_tier_pairs(o.expanded_replicasets@, t)
            },
            TreeItem::Replicaset(t, r) => {
                &&& n.expanded_tiers == o.expanded_tiers
                &&& n.expanded_replicasets@ == without_pair(o.expanded_replicasets@, (t, r))
            },
            TreeItem::Instance(t, r, _) => {
                &&& n.expanded_tiers == o.expanded_tiers
                &&& n.expanded_replicasets@ == without_pair(o.expanded_replicasets@, (t, r))
            },
        }
    } else {
        &&& n.expanded_tiers == o.expanded_tiers
        &&& n.expanded_replicasets == o.expanded_replicasets
        &&& n.tree_items == o.tree_items
        &&& n.selected_index == o.selected_index
    }
    &&& o.wf() ==> n.wf()
}

/// Whether the selection is on an instance, so that the detail popup can
/// open: any row of the Instances view, an instance row of the Tiers view.
pub open spec fn on_instance(o: App) -> bool {
    o.view_mode == ViewMode::Instances || (o.view_mode == ViewMode::Tiers && o.selected_index
        < o.tree_items@.len() && o.tree_items@[o.selected_index as int] is Instance)
}

/// The state after a key in the login form (see `handle_login_key`).
pub open spec fn after_login_key(o: App, n: App, key: Key) -> bool {
    let k = login_key(key);
    let sends = k == Key::Enter && o.login_focus != LoginFocus::RememberMe
        && o.login_username@.len() > 0 && !o.loading;
    &&& n.same_view(o)
    &&& n.same_data(o)
    &&& n.base_url == o.base_url
    &&& n.auth_enabled == o.auth_enabled
    &&& n.input_mode == o.input_mode
    &&& n.has_saved_token == o.has_saved_token
    &&& n.pending_init == o.pending_init
    &&& n.last_error == o.last_error
    &&& n.running == (!(k == Key::Esc || k == Key::Char('q')) && o.running)
    &&& n.login_show_password == (o.login_show_password != (k == Key::Ctrl('s')))
    &&& n.login_focus == (if k == Key::Tab || k == Key::Down {
        next_focus(o.login_focus)
    } else if k == Key::BackTab || k == Key::Up {
        previous_focus(o.login_focus)
    } else {
        o.login_focus
    })
    &&& n.login_remember_me == (o.login_remember_me != (o.login_focus == LoginFocus::RememberMe
        && (k == Key::Enter || k == Key::Char(' '))))
    &&& if sends {
        &&& n.outbox@ == o.outbox@.push(
            Effect::Send(
                ApiRequest::Login {
                    username: o.login_username,
                    password: o.login_password,
                    remember_me: o.login_remember_me,
                },
            ),
        )
        &&& n.loading
        &&& n.login_error is None
    } else {
        &&& n.outbox == o.outbox
        &&& n.loading == o.loading
        &&& n.login_error == o.login_error
    }
    &&& k == Key::Enter && o.login_focus != LoginFocus::RememberMe && !sends ==> n == o
    &&& n.login_username@ == (if o.login_focus == LoginFocus::Username && k == Key::Backspace
        && o.login_username@.len() > 0 {
        o.login_username@.drop_last()
    } else if o.login_focus == LoginFocus::Username && typed(k) is Some && k != Key::Ctrl('s')
        && k != Key::Char('q') {
        o.login_username@.push(typed(k)->0)
    } else {
        o.login_username@
    })
    &&& n.login_password@ == (if o.login_focus == LoginFocus::Password && k == Key::Backspace
        && o.login_password@.len() > 0 {
        o.login_password@.drop_last()
    } else if o.login_focus == LoginFocus::Password && typed(k) is Some && k != Key::Ctrl('s')
        && k != Key::Char('q') {
        o.login_password@.push(typed(k)->0)
    } else {
        o.login_password@
    })
    &&& o.wf() ==> n.wf()
}

/// The state after a key in the active filter line (see
/// `handle_filter_key`).
pub open spec fn after_filter_key(o: App, n: App, key: Key) -> bool {
    &&& n.same_session(o)
    &&& n.same_status(o)
    &&& n.tiers == o.tiers
    &&& n.tree_items == o.tree_items
    &&& n.cluster_info == o.cluster_info
    &&& n.expanded_tiers == o.expanded_tiers
    &&& n.expanded_replicasets == o.expanded_replicasets
    &&& n.view_mode == o.view_mode
    &&& n.sort_field == o.sort_field
    &&& n.sort_order == o.sort_order
    &&& n.show_detail == o.show_detail
    &&& n.filter_active == (o.filter_active && !(key == Key::Esc || key == Key::Enter))
    &&& n.filter_text@ == (if key == Key::Esc {
        Seq::empty()
    } else if key == Key::Backspace && o.filter_text@.len() > 0 {
        o.filter_text@.drop_last()
    } else if typed(key) is Some {
        o.filter_text@.push(typed(key)->0)
    } else {
        o.filter_text@
    })
    &&& n.selected_index == (if key == Key::Esc || key == Key::Backspace || typed(key) is Some {
        0
    } else {
        o.selected_index
    })
    &&& o.wf() ==> n.wf()
}

/// The state after a key in the main view (see `handle_view_key`).
pub open spec fn after_view_key(o: App, n: App, key: Key) -> bool {
    let k = view_key(key);
    let expands = k == Key::Right || k == Key::Char('l');
    let collapses = k == Key::Left || k == Key::Char('h');
    &&& n.base_url == o.base_url
    &&& n.auth_enabled == o.auth_enabled
    &&& n.login_username == o.login_username
    &&& n.login_focus == o.login_focus
    &&& n.login_remember_me == o.login_remember_me
    &&& n.login_show_password == o.login_show_password
    &&& n.login_password == o.login_password
    &&& n.login_error == o.login_error
    &&& n.has_saved_token == o.has_saved_token
    &&& n.pending_init == o.pending_init
    &&& n.input_mode == o.input_mode
    &&& n.tiers == o.tiers
    &&& n.cluster_info == o.cluster_info
    &&& n.running == (o.running && !(k == Key::Char('q') || k == Key::Ctrl('c') || (k
        == Key::Char('X') && o.auth_enabled)))
    &&& n.view_mode == (match mode_for_key(k, o.view_mode) {
        Some(m) => m,
        None => o.view_mode,
    })
    &&& if mode_for_key(k, o.view_mode) is Some {
        n.selected_index == 0 && n.filter_text@.len() == 0 && !n.filter_active
    } else {
        n.filter_text == o.filter_text
    }
    &&& n.sort_field == (if k == Key::Char('s') && o.view_mode == ViewMode::Instances {
        o.sort_field.cycle_next_spec()
    } else {
        o.sort_field
    })
    &&& n.sort_order == (if k == Key::Char('S') && o.view_mode == ViewMode::Instances {
        o.sort_order.toggle_spec()
    } else {
        o.sort_order
    })
    &&& (k == Key::Char('s') || k == Key::Char('S')) && o.view_mode == ViewMode::Instances
        ==> n.selected_index == 0
    &&& n.filter_active == (if mode_for_key(k, o.view_mode) is Some {
        false
    } else {
        o.filter_active || (k == Key::Char('/') && o.view_mode == ViewMode::Instances)
    })
    &&& (k == Key::Down || k == Key::Char('j')) ==> n.selected_index == next_index(
        o.selected_index,
        o.count_of(),
    )
    &&& (k == Key::Up || k == Key::Char('k')) ==> n.selected_index == previous_index(
        o.selected_index,
        o.count_of(),
    )
    &&& k == Key::Home ==> n.selected_index == (if o.count_of() > 0 {
        0
    } else {
        o.selected_index
    })
    &&& k == Key::End ==> n.selected_index == (if o.count_of() > 0 {
        (o.count_of() - 1) as usize
    } else {
        o.selected_index
    })
    &&& (k == Key::PageDown || k == Key::Ctrl('f')) ==> n.selected_index == forward_index(
        o.selected_index,
        o.count_of(),
        PAGE_HEIGHT,
    )
    &&& (k == Key::PageUp || k == Key::Ctrl('b')) ==> n.selected_index == backward_index(
        o.selected_index,
        o.count_of(),
        PAGE_HEIGHT,
    )
    &&& k == Key::Ctrl('d') ==> n.selected_index == forward_index(
        o.selected_index,
        o.count_of(),
        PAGE_HEIGHT / 2,
    )
    &&& k == Key::Ctrl('u') ==> n.selected_index == backward_index(
        o.selected_index,
        o.count_of(),
        PAGE_HEIGHT / 2,
    )
    &&& k == Key::Enter ==> n.show_detail == (o.show_detail != on_instance(o))
    &&& expands ==> after_expand(o, n)
    &&& collapses ==> after_collapse(o, n)
    &&& !(expands || collapses) ==> n.expanded_tiers == o.expanded_tiers
        && n.expanded_replicasets == o.expanded_replicasets && n.tree_items == o.tree_items
    &&& !(expands || k == Key::Enter) ==> n.show_detail == o.show_detail
    &&& k == Key::Char('r') ==> if o.loading {
        n == o
    } else {
        &&& n.loading
        &&& n.last_error is None
        &&& n.outbox@ == o.outbox@ + refresh_effects()
        &&& n.selected_index == o.selected_index
    }
    &&& k == Key::Char('X') && o.auth_enabled ==> n.outbox@ == o.outbox@.push(
        Effect::DeleteSavedToken,
    )
    &&& !(k == Key::Char('r') || k == Key::Char('X')) ==> n.outbox == o.outbox && n.loading
        == o.loading && n.last_error == o.last_error
    &&& o.wf() ==> n.wf()
}

/// Expanding the selected, collapsed tier of a well-formed Tiers view
/// inserts the tier's block immediately after the selected row and leaves
/// the selection on the tier; when none of the tier's replicasets is
/// expanded, the block is its replicasets in source order.
pub proof fn lemma_expand_selected_tier_inserts_block(o: App, n: App)
    requires
        o.wf(),
        after_expand(o, n),
        o.view_mode == ViewMode::Tiers,
        o.selected_index < o.tree_items@.len(),
        o.tree_items@[o.selected_index as int] is Tier,
        !o.expanded_tiers@.contains(o.tree_items@[o.selected_index as int]->Tier_0),
    ensures
        ({
            let t = o.tree_items@[o.selected_index as int]->Tier_0;
            let sel = o.selected_index as int;
            &&& (t as int) < o.tiers@.len()
            &&& n.selected_index == o.selected_index
            &&& n.tree_items@ == o.tree_items@.take(sel + 1) + tier_block(
                t,
                o.tiers@[t as int],
                o.expanded_replicasets@,
            ) + o.tree_items@.skip(sel + 1)
            &&& (forall|r: usize| !o.expanded_replicasets@.contains((t, r))) ==> n.tree_items@
                == o.tree_items@.take(sel + 1) + Seq::new(
                o.tiers@[t as int].replicasets@.len(),
                |r: int| TreeItem::Replicaset(t, r as usize),
            ) + o.tree_items@.skip(sel + 1)
        }),
{
    let t = o.tree_items@[o.selected_index as int]->Tier_0;
    let sel = o.selected_index as int;
    assert(o.tiers@.len() <= usize::MAX) by {
        assert(o.tiers.len() == o.tiers@.len());
    }
    lemma_tier_row_is_unique(o.tiers@, o.expanded_tiers@, o.expanded_replicasets@, t, sel);
    lemma_expand_tier_inserts_block(o.tiers@, o.expanded_tiers@, o.expanded_replicasets@, t);
    let tier = o.tiers@[t as int];
    if forall|r: usize| !o.expanded_replicasets@.contains((t, r)) {
        assert(tier.replicasets@.len() <= usize::MAX) by {
            assert(tier.replicasets.len() == tier.replicasets@.len());
        }
        lemma_tier_block_of_collapsed(t, tier, o.expanded_replicasets@);
    }
}

impl App {
    /// The number of rows the active view lists: the flattened tree, all
    /// replicasets, or the instances the filter keeps.
    pub open spec fn count_of(self) -> nat {
        count_for(self.view_mode, self.tree_items@, self.tiers@, self.filter_text@)
    }

    /// The instance that the selected row of the Tiers view stands for.
    pub open spec fn tree_instance(self) -> Option<InstanceInfo> {
        if self.selected_index < self.tree_items@.len() {
            match self.tree_items@[self.selected_index as int] {
                TreeItem::Instance(t, rs, i) => {
                    if t < self.tiers@.len() && rs < self.tiers@[t as int].replicasets@.len() && i
                        < self.tiers@[t as int].replicasets@[rs as int].instances@.len() {
                        Some(self.tiers@[t as int].replicasets@[rs as int].instances@[i as int])
                    } else {
                        None
                    }
                },
                _ => None,
            }
        } else {
            None
        }
    }

    /// The Tiers view's rows are those of the data and the expansion sets,
    /// and the selection lies within the active view's rows when there are
    /// any.
    pub open spec fn wf(self) -> bool {
        &&& self.tree_items@ == tree_of(
            self.tiers@,
            self.expanded_tiers@,
            self.expanded_replicasets@,
        )
        &&& self.count_of() > 0 ==> self.selected_index < self.count_of()
    }

    /// The requests, flags and messages that no view action touches.
    pub open spec fn same_status(self, o: App) -> bool {
        &&& o.outbox == self.outbox
        &&& o.loading == self.loading
        &&& o.pending_init == self.pending_init
        &&& o.input_mode == self.input_mode
        &&& o.has_saved_token == self.has_saved_token
        &&& o.login_password == self.login_password
        &&& o.login_error == self.login_error
        &&& o.last_error == self.last_error
    }

    /// The parts of the state that data and navigation do not touch.
    pub open spec fn same_session(self, o: App) -> bool {
        &&& self.same_login_form(o)
        &&& o.auth_enabled == self.auth_enabled
    }

    /// What the user set up: the server, the login form's fields but the
    /// password, and whether the application runs.
    pub open spec fn same_login_form(self, o: App) -> bool {
        &&& o.running == self.running
        &&& o.base_url == self.base_url
        &&& o.login_username == self.login_username
        &&& o.login_focus == self.login_focus
        &&& o.login_remember_me == self.login_remember_me
        &&& o.login_show_password == self.login_show_password
    }

    /// The view state: expansion, mode, sort, filter and detail popup.
    pub open spec fn same_view(self, o: App) -> bool {
        &&& o.expanded_tiers == self.expanded_tiers
        &&& o.expanded_replicasets == self.expanded_replicasets
        &&& o.view_mode == self.view_mode
        &&& o.sort_field == self.sort_field
        &&& o.sort_order == self.sort_order
        &&& o.filter_text == self.filter_text
        &&& o.filter_active == self.filter_active
        &&& o.show_detail == self.show_detail
    }

    /// The data and what is derived from it.
    pub open spec fn same_data(self, o: App) -> bool {
        &&& o.tiers == self.tiers
        &&& o.tree_items == self.tree_items
        &&& o.selected_index == self.selected_index
        &&& o.cluster_info == self.cluster_info
    }

    /// Everything but the selection is as in `o`.
    pub open spec fn same_except_selection(self, o: App) -> bool {
        &&& self.same_session(o)
        &&& self.same_view(o)
        &&& o.tiers == self.tiers
        &&& o.tree_items == self.tree_items
        &&& o.cluster_info == self.cluster_info
        &&& o.outbox == self.outbox
        &&& o.loading == self.loading
        &&& o.pending_init == self.pending_init
        &&& o.input_mode == self.input_mode
        &&& o.has_saved_token == self.has_saved_token
        &&& o.login_password == self.login_password
        &&& o.login_error == self.login_error
        &&& o.last_error == self.last_error
    }

    /// Moves the selection down one row, wrapping to the top.
    pub fn select_next(&mut self)
        ensures
            old(self).wf() ==> final(self).wf(),
            final(self).selected_index == next_index(old(self).selected_index, old(self).count_of()),
            final(self).same_except_selection(*old(self)),
    {
        let count = self.get_item_count();
        if count > 0 {
            self.selected_index = ((self.selected_index as u128 + 1) % (count as u128)) as usize;
        }
    }

    /// Moves the selection up one row, wrapping to the bottom.
    pub fn select_previous(&mut self)
        ensures
            old(self).wf() ==> final(self).wf(),
            final(self).selected_index == previous_index(
                old(self).selected_index,
                old(self).count_of(),
            ),
            final(self).same_except_selection(*old(self)),
    {
        let count = self.get_item_count();
        if count > 0 {
            self.selected_index = if self.selected_index == 0 {
                count - 1
            } else {
                self.selected_index - 1
            };
        }
    }

    /// Puts the selection on the first row, if any.
    pub fn select_first(&mut self)
        ensures
            old(self).wf() ==> final(self).wf(),
            final(self).selected_index == (if old(self).count_of() > 0 {
                0
            } else {
                old(self).selected_index
            }),
            final(self).same_except_selection(*old(self)),
    {
        let count = self.get_item_count();
        if count > 0 {
            self.selected_index = 0;
        }
    }

    /// Puts the selection on the last row, if any.
    pub fn select_last(&mut self)
        ensures
            old(self).wf() ==> final(self).wf(),
            final(self).selected_index == (if old(self).count_of() > 0 {
                (old(self).count_of() - 1) as usize
            } else {
                old(self).selected_index
            }),
            final(self).same_except_selection(*old(self)),
    {
        let count = self.get_item_count();
        if count > 0 {
            self.selected_index = count - 1;
        }
    }

    /// Moves down `step` rows, stopping at the last.
    pub fn select_forward(&mut self, step: usize)
        ensures
            old(self).wf() ==> final(self).wf(),
            final(self).selected_index == forward_index(
                old(self).selected_index,
                old(self).count_of(),
                step,
            ),
            final(self).same_except_selection(*old(self)),
    {
        let count = self.get_item_count();
        if count > 0 {
            self.selected_index = if self.selected_index as u128 + step as u128 >= count as u128 {
                count - 1
            } else {
                self.selected_index + step
            };
        }
    }

    /// Moves up `step` rows, stopping at the first.
    pub fn select_backward(&mut self, step: usize)
        ensures
            old(self).wf() ==> final(self).wf(),
            final(self).selected_index == backward_index(
                old(self).selected_index,
                old(self).count_of(),
                step,
            ),
            final(self).same_except_selection(*old(self)),
    {
        let count = self.get_item_count();
        if count > 0 {
            self.selected_index = if self.selected_index >= step {
                self.selected_index - step
            } else {
                0
            };
        }
    }

    /// Moves down a page of `page` rows.
    pub fn select_page_down(&mut self, page: usize)
        ensures
            old(self).wf() ==> final(self).wf(),
            final(self).selected_index == forward_index(
                old(self).selected_index,
                old(self).count_of(),
                page,
            ),
            final(self).same_except_selection(*old(self)),
    {
        self.select_forward(page);
    }

    /// Moves up a page of `page` rows.
    pub fn select_page_up(&mut self, page: usize)
        ensures
            old(self).wf() ==> final(self).wf(),
            final(self).selected_index == backward_index(
                old(self).selected_index,
                old(self).count_of(),
                page,
            ),
            final(self).same_except_selection(*old(self)),
    {
        self.select_backward(page);
    }

    /// Moves down half a page of `page` rows.
    pub fn select_half_page_down(&mut self, page: usize)
        ensures
            old(self).wf() ==> final(self).wf(),
            final(self).selected_index == forward_index(
                old(self).selected_index,
                old(self).count_of(),
                page / 2,
            ),
            final(self).same_except_selection(*old(self)),
    {
        self.select_forward(page / 2);
    }

    /// Moves up half a page of `page` rows.
    pub fn select_half_page_up(&mut self, page: usize)
        ensures
            old(self).wf() ==> final(self).wf(),
            final(self).selected_index == backward_index(
                old(self).selected_index,
                old(self).count_of(),
                page / 2,
            ),
            final(self).same_except_selection(*old(self)),
    {
        self.select_backward(page / 2);
    }

    /// Puts the selection on the first row.
    pub fn reset_selection(&mut self)
        ensures
            old(self).wf() ==> final(self).wf(),
            final(self).selected_index == 0,
            final(self).same_except_selection(*old(self)),
    {
        self.selected_index = 0;
    }

    /// Expands the selected tier or replicaset of the Tiers view, or opens
    /// the detail popup on a selected instance (Tiers or Instances view).
    #[verifier::rlimit(100)]
    pub fn expand_selected(&mut self)
        ensures
            after_expand(*old(self), *final(self)),
    {
        match self.view_mode {
            ViewMode::Tiers => {
                if self.selected_index < self.tree_items.len() {
                    match self.tree_items[self.selected_index] {
                        TreeItem::Tier(t) => {
                            if !contains_index(&self.expanded_tiers, t) {
                                self.expanded_tiers.push(t);
                            }
                            proof {
                                lemma_with_index_grows(old(self).expanded_tiers@, t);
                                lemma_tree_grows(
                                    self.tiers@,
                                    old(self).expanded_tiers@,
                                    self.expanded_tiers@,
                                    self.expanded_replicasets@,
                                    self.expanded_replicasets@,
                                );
                            }
                            self.rebuild_tree();
                        },
                        TreeItem::Replicaset(t, r) => {
                            if !contains_pair(&self.expanded_replicasets, t, r) {
                                self.expanded_replicasets.push((t, r));
                            }
                            proof {
                                lemma_with_pair_grows(old(self).expanded_replicasets@, (t, r));
                                lemma_tree_grows(
                                    self.tiers@,
                                    self.expanded_tiers@,
                                    self.expanded_tiers@,
                                    old(self).expanded_replicasets@,
                                    self.expanded_replicasets@,
                                );
                            }
                            self.rebuild_tree();
                        },
                        TreeItem::Instance(_, _, _) => {
                            self.show_detail = true;
                        },
                    }
                }
            },
            ViewMode::Replicasets => {},
            ViewMode::Instances => {
                self.show_detail = true;
            },
        }
    }

    /// Collapses the selected tier (and its replicasets), the selected
    /// replicaset, or the replicaset of the selected instance. Tiers view only.
    #[verifier::rlimit(80)]
    pub fn collapse_selected(&mut self)
        ensures
            after_collapse(*old(self), *final(self)),
    {
        if self.view_mode != ViewMode::Tiers {
            return;
        }
        if self.selected_index < self.tree_items.len() {
            match self.tree_items[self.selected_index] {
                TreeItem::Tier(t) => {
                    self.expanded_tiers = remove_index(&self.expanded_tiers, t);
                    self.expanded_replicasets = remove_pairs(&self.expanded_replicasets, t, 0, true);
                    self.rebuild_tree();
                },
                TreeItem::Replicaset(t, r) => {
                    self.expanded_replicasets = remove_pairs(&self.expanded_replicasets, t, r, false);
                    self.rebuild_tree();
                },
                TreeItem::Instance(t, r, _) => {
                    self.expanded_replicasets = remove_pairs(&self.expanded_replicasets, t, r, false);
                    self.rebuild_tree();
                },
            }
        }
    }

    /// Opens or closes the detail popup, where the view has an instance under
    /// the selection: any row of the Instances view, an instance row of the
    /// Tiers view.
    pub fn toggle_detail(&mut self)
        ensures
            final(self).show_detail == (old(self).show_detail != on_instance(*old(self))),
            final(self).same_session(*old(self)),
            final(self).same_status(*old(self)),
            final(self).same_data(*old(self)),
            final(self).expanded_tiers == old(self).expanded_tiers,
            final(self).expanded_replicasets == old(self).expanded_replicasets,
            final(self).view_mode == old(self).view_mode,
            final(self).filter_text == old(self).filter_text,
            final(self).filter_active == old(self).filter_active,
            final(self).sort_field == old(self).sort_field,
            final(self).sort_order == old(self).sort_order,
            old(self).wf() ==> final(self).wf(),
    {
        match self.view_mode {
            ViewMode::Tiers => {
                if self.selected_index < self.tree_items.len() {
                    if let TreeItem::Instance(_, _, _) = self.tree_items[self.selected_index] {
                        self.show_detail = !self.show_detail;
                    }
                }
            },
            ViewMode::Replicasets => {},
            ViewMode::Instances => {
                self.show_detail = !self.show_detail;
            },
        }
    }

    /// Dispatches a key: to the login form in login mode, to the detail
    /// popup while it is open, else to the main view.
    pub fn handle_key(&mut self, key: Key)
        ensures
            match old(self).input_mode {
                InputMode::Login => after_login_key(*old(self), *final(self), key),
                InputMode::Normal => if old(self).show_detail {
                    let closes = view_key(key) == Key::Esc || view_key(key) == Key::Enter
                        || view_key(key) == Key::Char('q');
                    *final(self) == (App { show_detail: !closes, ..*old(self) })
                } else if old(self).filter_active {
                    after_filter_key(*old(self), *final(self), key)
                } else {
                    after_view_key(*old(self), *final(self), key)
                },
            },
            old(self).wf() ==> final(self).wf(),
    {
        match self.input_mode {
            InputMode::Login => self.handle_login_key(key),
            InputMode::Normal => {
                if self.show_detail {
                    let k = to_view_key(key);
                    if k == Key::Esc || k == Key::Enter || k == Key::Char('q') {
                        self.show_detail = false;
                    }
                } else {
                    self.handle_normal_key(key);
                }
            },
        }
    }

    /// A key in the login form.
    #[verifier::rlimit(100)]
    pub fn handle_login_key(&mut self, pressed: Key)
        ensures
            after_login_key(*old(self), *final(self), pressed),
    {
        let key = to_login_key(pressed);
        if key == Key::Esc || key == Key::Char('q') {
            self.running = false;
            return;
        }
        if key == Key::Ctrl('s') {
            self.login_show_password = !self.login_show_password;
            return;
        }
        match key {
            Key::Tab | Key::Down => {
                self.login_focus = match self.login_focus {
                    LoginFocus::Username => LoginFocus::Password,
                    LoginFocus::Password => LoginFocus::RememberMe,
                    LoginFocus::RememberMe => LoginFocus::Username,
                };
            },
            Key::BackTab | Key::Up => {
                self.login_focus = match self.login_focus {
                    LoginFocus::Username => LoginFocus::RememberMe,
                    LoginFocus::Password => LoginFocus::Username,
                    LoginFocus::RememberMe => LoginFocus::Password,
                };
            },
            Key::Enter => {
                if self.login_focus == LoginFocus::RememberMe {
                    self.login_remember_me = !self.login_remember_me;
                } else if !self.login_username.as_str().is_empty() && !self.loading {
                    self.request_login();
                }
            },
            Key::Backspace => {
                match self.login_focus {
                    LoginFocus::Username => {
                        pop_char(&mut self.login_username);
                    },
                    LoginFocus::Password => {
                        pop_char(&mut self.login_password);
                    },
                    LoginFocus::RememberMe => {},
                }
            },
            _ => {
                if key == Key::Char(' ') && self.login_focus == LoginFocus::RememberMe {
                    self.login_remember_me = !self.login_remember_me;
                } else if let Some(c) = typed_char(key) {
                    match self.login_focus {
                        LoginFocus::Username => push_char(&mut self.login_username, c),
                        LoginFocus::Password => push_char(&mut self.login_password, c),
                        LoginFocus::RememberMe => {},
                    }
                }
            },
        }
    }

    /// Switches the view mode; the filter is cleared and the selection goes
    /// back to the first row.
    pub fn set_view_mode(&mut self, mode: ViewMode)
        ensures
            final(self).same_status(*old(self)),
            final(self).cluster_info == old(self).cluster_info,
            old(self).wf() ==> final(self).wf(),
            final(self).view_mode == mode,
            final(self).filter_text@.len() == 0,
            !final(self).filter_active,
            final(self).selected_index == 0,
            final(self).same_session(*old(self)),
            final(self).tiers == old(self).tiers,
            final(self).tree_items == old(self).tree_items,
            final(self).outbox == old(self).outbox,
            final(self).loading == old(self).loading,
            final(self).input_mode == old(self).input_mode,
            final(self).sort_field == old(self).sort_field,
            final(self).sort_order == old(self).sort_order,
            final(self).expanded_tiers == old(self).expanded_tiers,
            final(self).expanded_replicasets == old(self).expanded_replicasets,
            final(self).show_detail == old(self).show_detail,
    {
        self.view_mode = mode;
        self.filter_text = String::new();
        self.filter_active = false;
        self.reset_selection();
    }

    /// A key in the main view, or in the filter line while it is active.
    pub fn handle_normal_key(&mut self, key: Key)
        ensures
            if old(self).filter_active {
                after_filter_key(*old(self), *final(self), key)
            } else {
                after_view_key(*old(self), *final(self), key)
            },
    {
        if self.filter_active {
            self.handle_filter_key(key);
        } else {
            self.handle_view_key(key);
        }
    }

    /// A key in the active filter line: typing edits the filter and puts the
    /// selection on the first row; Enter keeps the filter, Esc clears it.
    #[verifier::rlimit(80)]
    pub fn handle_filter_key(&mut self, key: Key)
        ensures
            after_filter_key(*old(self), *final(self), key),
    {
        if key == Key::Esc {
            self.filter_text = String::new();
            self.filter_active = false;
            self.reset_selection();
        } else if key == Key::Enter {
            self.filter_active = false;
        } else if key == Key::Backspace {
            pop_char(&mut self.filter_text);
            self.reset_selection();
        } else if let Some(c) = typed_char(key) {
            push_char(&mut self.filter_text, c);
            self.reset_selection();
        }
    }

    /// A key in the main view.
    #[verifier::rlimit(100)]
    pub fn handle_view_key(&mut self, pressed: Key)
        ensures
            after_view_key(*old(self), *final(self), pressed),
    {
        let key = to_view_key(pressed);
        if key == Key::Char('q') || key == Key::Ctrl('c') {
            self.running = false;
            return;
        }
        match key {
            Key::Up | Key::Char('k') => self.select_previous(),
            Key::Down | Key::Char('j') => self.select_next(),
            Key::Right | Key::Char('l') => self.expand_selected(),
            Key::Left | Key::Char('h') => self.collapse_selected(),
            Key::Home => self.select_first(),
            Key::End => self.select_last(),
            Key::Ctrl('d') => self.select_half_page_down(PAGE_HEIGHT),
            Key::Ctrl('u') => self.select_half_page_up(PAGE_HEIGHT),
            Key::Ctrl('f') | Key::PageDown => self.select_page_down(PAGE_HEIGHT),
            Key::Ctrl('b') | Key::PageUp => self.select_page_up(PAGE_HEIGHT),
            Key::Enter => self.toggle_detail(),
            Key::Char('r') => {
                if !self.loading {
                    self.request_refresh();
                }
            },
            Key::Char('X') => {
                if self.auth_enabled {
                    self.logout();
                }
            },
            Key::Char('g') => {
                let mode = self.view_mode.cycle_next();
                self.set_view_mode(mode);
            },
            Key::Char('1') => self.set_view_mode(ViewMode::Tiers),
            Key::Char('2') => self.set_view_mode(ViewMode::Replicasets),
            Key::Char('3') => self.set_view_mode(ViewMode::Instances),
            Key::Char('s') => {
                if self.view_mode == ViewMode::Instances {
                    self.sort_field = self.sort_field.cycle_next();
                    self.reset_selection();
                }
            },
            Key::Char('S') => {
                if self.view_mode == ViewMode::Instances {
                    self.sort_order = self.sort_order.toggle();
                    self.reset_selection();
                }
            },
            Key::Char('/') => {
                if self.view_mode == ViewMode::Instances {
                    self.filter_active = true;
                }
            },
            _ => {},
        }
    }

    /// A fresh state for the server at `base_url`. A saved session is handed
    /// to the worker at once.
    pub fn new(base_url: String, saved_token: Option<TokenEntry>) -> (app: App)
        ensures
            app.running,
            app.base_url == base_url,
            !app.loading,
            app.pending_init,
            app.input_mode == InputMode::Normal,
            !app.auth_enabled,
            app.has_saved_token == saved_token is Some,
            app.outbox@ == match saved_token {
                Some(t) => seq![Effect::Send(ApiRequest::SetToken { auth: t.auth, refresh: t.refresh })],
                None => Seq::<Effect>::empty(),
            },
            app.login_username@.len() == 0,
            app.login_password@.len() == 0,
            app.login_focus == LoginFocus::Username,
            app.login_remember_me,
            !app.login_show_password,
            app.login_error is None,
            app.cluster_info is None,
            app.tiers@.len() == 0,
            app.last_error is None,
            app.expanded_tiers@.len() == 0,
            app.expanded_replicasets@.len() == 0,
            app.tree_items@.len() == 0,
            app.selected_index == 0,
            !app.show_detail,
            app.view_mode == ViewMode::Tiers,
            app.sort_field == SortField::Name,
            app.sort_order == SortOrder::Asc,
            app.filter_text@.len() == 0,
            !app.filter_active,
            app.wf(),
    {
        let has_saved_token = saved_token.is_some();
        let mut outbox: Vec<Effect> = Vec::new();
        match saved_token {
            Some(entry) => {
                outbox.push(
                    Effect::Send(ApiRequest::SetToken { auth: entry.auth, refresh: entry.refresh }),
                );
            },
            None => {},
        }
        App {
            running: true,
            base_url,
            outbox,
            loading: false,
            pending_init: true,
            input_mode: InputMode::Normal,
            auth_enabled: false,
            has_saved_token,
            login_username: String::new(),
            login_password: String::new(),
            login_focus: LoginFocus::Username,
            login_remember_me: true,
            login_show_password: false,
            login_error: None,
            cluster_info: None,
            tiers: Vec::new(),
            last_error: None,
            expanded_tiers: Vec::new(),
            expanded_replicasets: Vec::new(),
            tree_items: Vec::new(),
            selected_index: 0,
            show_detail: false,
            view_mode: ViewMode::Tiers,
            sort_field: SortField::Name,
            sort_order: SortOrder::Asc,
            filter_text: String::new(),
            filter_active: false,
        }
    }

    /// Hands over the effects decided so far, oldest first, and forgets them.
    pub fn take_effects(&mut self) -> (effects: Vec<Effect>)
        ensures
            old(self).wf() ==> final(self).wf(),
            effects@ == old(self).outbox@,
            final(self).outbox@.len() == 0,
            final(self).same_session(*old(self)),
            final(self).same_view(*old(self)),
            final(self).same_data(*old(self)),
            final(self).loading == old(self).loading,
            final(self).input_mode == old(self).input_mode,
    {
        let mut effects: Vec<Effect> = Vec::new();
        std::mem::swap(&mut effects, &mut self.outbox);
        effects
    }

    /// Starts initialization by asking for the server's configuration.
    pub fn start_init(&mut self)
        ensures
            old(self).wf() ==> final(self).wf(),
            final(self).loading,
            final(self).pending_init,
            final(self).outbox@ == old(self).outbox@.push(Effect::Send(ApiRequest::GetConfig)),
            final(self).same_session(*old(self)),
            final(self).same_view(*old(self)),
            final(self).same_data(*old(self)),
            final(self).input_mode == old(self).input_mode,
            final(self).last_error == old(self).last_error,
    {
        self.loading = true;
        self.pending_init = true;
        self.outbox.push(Effect::Send(ApiRequest::GetConfig));
    }

    /// Asks for fresh cluster info and tiers.
    pub fn request_refresh(&mut self)
        ensures
            old(self).wf() ==> final(self).wf(),
            final(self).loading,
            final(self).last_error is None,
            final(self).outbox@ == old(self).outbox@ + refresh_effects(),
            final(self).same_session(*old(self)),
            final(self).same_view(*old(self)),
            final(self).same_data(*old(self)),
            final(self).input_mode == old(self).input_mode,
            final(self).pending_init == old(self).pending_init,
            final(self).has_saved_token == old(self).has_saved_token,
            final(self).login_error == old(self).login_error,
            final(self).login_password == old(self).login_password,
    {
        self.loading = true;
        self.last_error = None;
        self.outbox.push(Effect::Send(ApiRequest::GetClusterInfo));
        self.outbox.push(Effect::Send(ApiRequest::GetTiers));
        assert(self.outbox@ =~= old(self).outbox@ + refresh_effects());
    }

    /// Submits the login form.
    pub fn request_login(&mut self)
        ensures
            final(self).has_saved_token == old(self).has_saved_token,
            final(self).pending_init == old(self).pending_init,
            final(self).last_error == old(self).last_error,
            old(self).wf() ==> final(self).wf(),
            final(self).loading,
            final(self).login_error is None,
            final(self).outbox@ == old(self).outbox@.push(
                Effect::Send(
                    ApiRequest::Login {
                        username: old(self).login_username,
                        password: old(self).login_password,
                        remember_me: old(self).login_remember_me,
                    },
                ),
            ),
            final(self).same_session(*old(self)),
            final(self).same_view(*old(self)),
            final(self).same_data(*old(self)),
            final(self).input_mode == old(self).input_mode,
            final(self).login_password == old(self).login_password,
    {
        self.loading = true;
        self.login_error = None;
        let request = ApiRequest::Login {
            username: self.login_username.clone(),
            password: self.login_password.clone(),
            remember_me: self.login_remember_me,
        };
        self.outbox.push(Effect::Send(request));
    }

    /// The auto-refresh timer fired (`interval_elapsed`): refresh, unless a
    /// login is pending or data is still loading. Returns whether it did.
    pub fn tick(&mut self, interval_elapsed: bool) -> (refreshed: bool)
        ensures
            old(self).wf() ==> final(self).wf(),
            refreshed == (interval_elapsed && old(self).input_mode == InputMode::Normal
                && !old(self).loading),
            refreshed ==> final(self).loading && final(self).last_error is None
                && final(self).outbox@ == old(self).outbox@ + refresh_effects(),
            !refreshed ==> final(self).outbox == old(self).outbox && final(self).loading == old(self).loading && final(self).last_error == old(self).last_error,
            final(self).same_session(*old(self)),
            final(self).same_view(*old(self)),
            final(self).same_data(*old(self)),
            final(self).input_mode == old(self).input_mode,
    {
        if interval_elapsed && self.input_mode == InputMode::Normal && !self.loading {
            self.request_refresh();
            true
        } else {
            false
        }
    }

    /// Forgets the saved session and ends the application.
    pub fn logout(&mut self)
        ensures
            *final(self) == (App { running: false, outbox: final(self).outbox, ..*old(self) }),
            !final(self).running,
            final(self).outbox@ == old(self).outbox@.push(Effect::DeleteSavedToken),
            final(self).same_view(*old(self)),
            final(self).same_data(*old(self)),
            final(self).input_mode == old(self).input_mode,
            final(self).loading == old(self).loading,
    {
        self.outbox.push(Effect::DeleteSavedToken);
        self.running = false;
    }

    /// Asks the worker to stop.
    pub fn shutdown(&mut self)
        ensures
            old(self).wf() ==> final(self).wf(),
            final(self).outbox@ == old(self).outbox@.push(Effect::Send(ApiRequest::Shutdown)),
            final(self).same_session(*old(self)),
            final(self).same_view(*old(self)),
            final(self).same_data(*old(self)),
    {
        self.outbox.push(Effect::Send(ApiRequest::Shutdown));
    }

    /// The worker is gone: say so in the status bar.
    pub fn handle_disconnect(&mut self)
        ensures
            old(self).wf() ==> final(self).wf(),
            final(self).last_error is Some,
            final(self).last_error->0@ == "API worker disconnected"@,
            final(self).same_session(*old(self)),
            final(self).same_view(*old(self)),
            final(self).same_data(*old(self)),
            final(self).outbox == old(self).outbox,
            final(self).loading == old(self).loading,
            final(self).input_mode == old(self).input_mode,
    {
        self.last_error = Some(String::from_str("API worker disconnected"));
    }

    /// Loading is over once cluster info is present.
    fn check_loading_complete(&mut self)
        ensures
            old(self).wf() ==> final(self).wf(),
            final(self).loading == (old(self).loading && old(self).cluster_info is None),
            final(self).same_session(*old(self)),
            final(self).same_view(*old(self)),
            final(self).same_data(*old(self)),
            final(self).outbox == old(self).outbox,
            final(self).input_mode == old(self).input_mode,
            final(self).last_error == old(self).last_error,
            final(self).login_error == old(self).login_error,
            final(self).has_saved_token == old(self).has_saved_token,
            final(self).pending_init == old(self).pending_init,
            final(self).login_password == old(self).login_password,
    {
        if self.cluster_info.is_some() {
            self.loading = false;
        }
    }

    /// The saved session was refused: forget it and ask for a login.
    fn expire_session(&mut self)
        ensures
            old(self).wf() ==> final(self).wf(),
            !final(self).has_saved_token,
            !final(self).loading,
            final(self).input_mode == InputMode::Login,
            final(self).login_error is Some,
            final(self).login_error->0@ == session_expired_text(),
            final(self).outbox@ == old(self).outbox@.push(Effect::DeleteSavedToken),
            final(self).same_session(*old(self)),
            final(self).same_view(*old(self)),
            final(self).same_data(*old(self)),
            final(self).last_error == old(self).last_error,
            final(self).pending_init == old(self).pending_init,
            final(self).login_password == old(self).login_password,
    {
        self.has_saved_token = false;
        self.loading = false;
        self.input_mode = InputMode::Login;
        self.login_error = Some(String::from_str("Session expired, please login again"));
        self.outbox.push(Effect::DeleteSavedToken);
    }

    /// The server's configuration: ask for data unless a login is needed first.
    fn on_config(&mut self, result: Result<crate::models::UiConfig, String>)
        ensures
            final(self).has_saved_token == old(self).has_saved_token,
            final(self).login_error == old(self).login_error,
            final(self).login_password == old(self).login_password,
            old(self).wf() ==> final(self).wf(),
            final(self).same_login_form(*old(self)),
            final(self).view_mode == old(self).view_mode,
            final(self).filter_text == old(self).filter_text,
            final(self).expanded_tiers == old(self).expanded_tiers,
            final(self).expanded_replicasets == old(self).expanded_replicasets,
            match result {
                Ok(config) => {
                    let refresh = !config.is_auth_enabled || old(self).has_saved_token;
                    &&& final(self).auth_enabled == config.is_auth_enabled
                    &&& !final(self).pending_init
                    &&& final(self).same_view(*old(self))
                    &&& final(self).same_data(*old(self))
                    &&& final(self).has_saved_token == old(self).has_saved_token
                    &&& final(self).login_error == old(self).login_error
                    &&& if refresh {
                        &&& final(self).loading
                        &&& final(self).last_error is None
                        &&& final(self).outbox@ == old(self).outbox@ + refresh_effects()
                        &&& final(self).input_mode == old(self).input_mode
                    } else {
                        &&& !final(self).loading
                        &&& final(self).last_error == old(self).last_error
                        &&& final(self).outbox == old(self).outbox
                        &&& final(self).input_mode == InputMode::Login
                    }
                },
                Err(e) => {
                    &&& !final(self).loading
                    &&& !final(self).pending_init
                    &&& final(self).last_error is Some
                    &&& final(self).last_error->0@ == "Failed to connect: "@ + e@
                    &&& final(self).outbox == old(self).outbox
                    &&& final(self).input_mode == old(self).input_mode
                    &&& final(self).same_view(*old(self))
                    &&& final(self).same_data(*old(self))
                },
            },
    {
        self.loading = false;
        match result {
            Ok(config) => {
                self.auth_enabled = config.is_auth_enabled;
                if self.auth_enabled && !self.has_saved_token {
                    self.input_mode = InputMode::Login;
                } else {
                    self.request_refresh();
                }
                self.pending_init = false;
            },
            Err(e) => {
                self.last_error = Some(prefixed("Failed to connect: ", e.as_str()));
                self.pending_init = false;
            },
        }
    }

    /// The outcome of a login.
    fn on_login(&mut self, result: Result<crate::models::TokenResponse, String>)
        ensures
            old(self).wf() ==> final(self).wf(),
            final(self).auth_enabled == old(self).auth_enabled,
            final(self).same_login_form(*old(self)),
            final(self).view_mode == old(self).view_mode,
            final(self).filter_text == old(self).filter_text,
            final(self).expanded_tiers == old(self).expanded_tiers,
            final(self).expanded_replicasets == old(self).expanded_replicasets,
            match result {
                Ok(_) => {
                    &&& final(self).loading
                    &&& final(self).has_saved_token == old(self).has_saved_token
                    &&& final(self).pending_init == old(self).pending_init
                    &&& final(self).login_error == old(self).login_error
                    &&& final(self).input_mode == InputMode::Normal
                    &&& final(self).login_password@.len() == 0
                    &&& final(self).last_error is None
                    &&& final(self).outbox@ == old(self).outbox@ + refresh_effects()
                    &&& final(self).same_view(*old(self))
                    &&& final(self).same_data(*old(self))
                },
                Err(e) => {
                    &&& !final(self).loading
                    &&& final(self).login_error == Some(e)
                    &&& final(self).has_saved_token == old(self).has_saved_token
                    &&& final(self).pending_init == old(self).pending_init
                    &&& final(self).last_error == old(self).last_error
                    &&& final(self).login_password == old(self).login_password
                    &&& final(self).input_mode == old(self).input_mode
                    &&& final(self).outbox == old(self).outbox
                    &&& final(self).same_view(*old(self))
                    &&& final(self).same_data(*old(self))
                },
            },
    {
        self.loading = false;
        match result {
            Ok(_) => {
                self.input_mode = InputMode::Normal;
                self.login_password = String::new();
                self.request_refresh();
            },
            Err(e) => {
                self.login_error = Some(e);
            },
        }
    }

    /// Fresh cluster info, or why there is none.
    fn on_cluster_info(&mut self, result: Result<ClusterInfo, String>)
        ensures
            final(self).pending_init == old(self).pending_init,
            result is Ok ==> final(self).has_saved_token == old(self).has_saved_token
                && final(self).login_error == old(self).login_error,
            final(self).login_password == old(self).login_password,
            old(self).wf() ==> final(self).wf(),
            final(self).auth_enabled == old(self).auth_enabled,
            final(self).same_login_form(*old(self)),
            final(self).view_mode == old(self).view_mode,
            final(self).filter_text == old(self).filter_text,
            final(self).expanded_tiers == old(self).expanded_tiers,
            final(self).expanded_replicasets == old(self).expanded_replicasets,
            match result {
                Ok(info) => {
                    &&& final(self).cluster_info == Some(info)
                    &&& final(self).last_error is None
                    &&& !final(self).loading
                    &&& final(self).input_mode == old(self).input_mode
                    &&& final(self).outbox == old(self).outbox
                    &&& final(self).same_view(*old(self))
                    &&& final(self).tiers == old(self).tiers
                    &&& final(self).tree_items == old(self).tree_items
                    &&& final(self).selected_index == old(self).selected_index
                },
                Err(e) => {
                    let expired = is_auth_failure(e@) && old(self).has_saved_token;
                    &&& final(self).same_view(*old(self))
                    &&& final(self).same_data(*old(self))
                    &&& if expired {
                        &&& !final(self).has_saved_token
                        &&& !final(self).loading
                        &&& final(self).input_mode == InputMode::Login
                        &&& final(self).login_error is Some
                        &&& final(self).login_error->0@ == session_expired_text()
                        &&& final(self).outbox@ == old(self).outbox@.push(Effect::DeleteSavedToken)
                        &&& final(self).last_error == old(self).last_error
                    } else {
                        &&& final(self).has_saved_token == old(self).has_saved_token
                        &&& final(self).loading == (old(self).loading
                            && old(self).cluster_info is None)
                        &&& final(self).input_mode == old(self).input_mode
                        &&& final(self).login_error == old(self).login_error
                        &&& final(self).outbox == old(self).outbox
                        &&& final(self).last_error is Some
                        &&& final(self).last_error->0@ == "Cluster: "@ + e@
                    }
                },
            },
    {
        match result {
            Ok(info) => {
                self.cluster_info = Some(info);
                self.last_error = None;
            },
            Err(e) => {
                if auth_failure(e.as_str()) && self.has_saved_token {
                    self.expire_session();
                } else {
                    self.last_error = Some(prefixed("Cluster: ", e.as_str()));
                }
            },
        }
        self.check_loading_complete();
    }

    /// Fresh tiers, or why there are none.
    #[verifier::rlimit(50)]
    fn on_tiers(&mut self, result: Result<Vec<TierInfo>, String>)
        ensures
            final(self).pending_init == old(self).pending_init,
            result is Ok ==> final(self).has_saved_token == old(self).has_saved_token
                && final(self).login_error == old(self).login_error,
            final(self).login_password == old(self).login_password,
            old(self).wf() ==> final(self).wf(),
            final(self).auth_enabled == old(self).auth_enabled,
            final(self).same_login_form(*old(self)),
            final(self).view_mode == old(self).view_mode,
            final(self).filter_text == old(self).filter_text,
            final(self).expanded_tiers == old(self).expanded_tiers,
            final(self).expanded_replicasets == old(self).expanded_replicasets,
            match result {
                Ok(tiers) => {
                    &&& final(self).tiers == tiers
                    &&& final(self).tree_items@ == tree_of(
                        tiers@,
                        old(self).expanded_tiers@,
                        old(self).expanded_replicasets@,
                    )
                    &&& final(self).selected_index == clamp_selection(
                        old(self).selected_index,
                        final(self).count_of(),
                    )
                    &&& final(self).loading == (old(self).loading && old(self).cluster_info is None)
                    &&& final(self).cluster_info == old(self).cluster_info
                    &&& final(self).last_error == old(self).last_error
                    &&& final(self).input_mode == old(self).input_mode
                    &&& final(self).outbox == old(self).outbox
                    &&& final(self).same_view(*old(self))
                },
                Err(e) => {
                    let expired = is_auth_failure(e@) && old(self).has_saved_token;
                    &&& final(self).same_view(*old(self))
                    &&& final(self).same_data(*old(self))
                    &&& if expired {
                        &&& !final(self).has_saved_token
                        &&& !final(self).loading
                        &&& final(self).input_mode == InputMode::Login
                        &&& final(self).login_error is Some
                        &&& final(self).login_error->0@ == session_expired_text()
                        &&& final(self).outbox@ == old(self).outbox@.push(Effect::DeleteSavedToken)
                        &&& final(self).last_error == old(self).last_error
                    } else {
                        &&& final(self).has_saved_token == old(self).has_saved_token
                        &&& final(self).loading == (old(self).loading
                            && old(self).cluster_info is None)
                        &&& final(self).input_mode == old(self).input_mode
                        &&& final(self).login_error == old(self).login_error
                        &&& final(self).outbox == old(self).outbox
                        &&& match old(self).last_error {
                            Some(_) => final(self).last_error == old(self).last_error,
                            None => {
                                &&& final(self).last_error is Some
                                &&& final(self).last_error->0@ == "Tiers: "@ + e@
                            },
                        }
                    }
                },
            },
    {
        match result {
            Ok(tiers) => {
                self.tiers = tiers;
                self.rebuild_tree();
            },
            Err(e) => {
                if auth_failure(e.as_str()) && self.has_saved_token {
                    self.expire_session();
                    return;
                }
                if self.last_error.is_none() {
                    self.last_error = Some(prefixed("Tiers: ", e.as_str()));
                }
            },
        }
        self.check_loading_complete();
    }

    /// Applies one response of the worker.
    pub fn handle_response(&mut self, response: ApiResponse)
        ensures
            !(response is Config) ==> final(self).pending_init == old(self).pending_init,
            !(response matches ApiResponse::Login(Ok(_))) ==> final(self).login_password
                == old(self).login_password,
            (response is Config || (response matches ApiResponse::ClusterInfo(r) && r is Ok) || (
            response matches ApiResponse::Tiers(r) && r is Ok)) ==> final(self).has_saved_token
                == old(self).has_saved_token && final(self).login_error == old(self).login_error,
            old(self).wf() ==> final(self).wf(),
            !(response is Config) ==> final(self).auth_enabled == old(self).auth_enabled,
            final(self).same_login_form(*old(self)),
            final(self).view_mode == old(self).view_mode,
            final(self).filter_text == old(self).filter_text,
            final(self).expanded_tiers == old(self).expanded_tiers,
            final(self).expanded_replicasets == old(self).expanded_replicasets,
            match response {
                ApiResponse::Config(Ok(config)) => {
                    let refresh = !config.is_auth_enabled || old(self).has_saved_token;
                    &&& final(self).auth_enabled == config.is_auth_enabled
                    &&& !final(self).pending_init
                    &&& final(self).same_view(*old(self))
                    &&& final(self).same_data(*old(self))
                    &&& final(self).has_saved_token == old(self).has_saved_token
                    &&& final(self).login_error == old(self).login_error
                    &&& if refresh {
                        &&& final(self).loading
                        &&& final(self).last_error is None
                        &&& final(self).outbox@ == old(self).outbox@ + refresh_effects()
                        &&& final(self).input_mode == old(self).input_mode
                    } else {
                        &&& !final(self).loading
                        &&& final(self).last_error == old(self).last_error
                        &&& final(self).outbox == old(self).outbox
                        &&& final(self).input_mode == InputMode::Login
                    }
                },
                ApiResponse::Config(Err(e)) => {
                    &&& !final(self).loading
                    &&& !final(self).pending_init
                    &&& final(self).last_error is Some
                    &&& final(self).last_error->0@ == "Failed to connect: "@ + e@
                    &&& final(self).outbox == old(self).outbox
                    &&& final(self).input_mode == old(self).input_mode
                    &&& final(self).same_view(*old(self))
                    &&& final(self).same_data(*old(self))
                },
                ApiResponse::Login(Ok(_)) => {
                    &&& final(self).loading
                    &&& final(self).has_saved_token == old(self).has_saved_token
                    &&& final(self).pending_init == old(self).pending_init
                    &&& final(self).login_error == old(self).login_error
                    &&& final(self).input_mode == InputMode::Normal
                    &&& final(self).login_password@.len() == 0
                    &&& final(self).last_error is None
                    &&& final(self).outbox@ == old(self).outbox@ + refresh_effects()
                    &&& final(self).same_view(*old(self))
                    &&& final(self).same_data(*old(self))
                },
                ApiResponse::Login(Err(e)) => {
                    &&& !final(self).loading
                    &&& final(self).login_error == Some(e)
                    &&& final(self).has_saved_token == old(self).has_saved_token
                    &&& final(self).pending_init == old(self).pending_init
                    &&& final(self).last_error == old(self).last_error
                    &&& final(self).login_password == old(self).login_password
                    &&& final(self).input_mode == old(self).input_mode
                    &&& final(self).outbox == old(self).outbox
                    &&& final(self).same_view(*old(self))
                    &&& final(self).same_data(*old(self))
                },
                ApiResponse::ClusterInfo(Ok(info)) => {
                    &&& final(self).cluster_info == Some(info)
                    &&& final(self).last_error is None
                    &&& !final(self).loading
                    &&& final(self).input_mode == old(self).input_mode
                    &&& final(self).outbox == old(self).outbox
                    &&& final(self).same_view(*old(self))
                    &&& final(self).tiers == old(self).tiers
                    &&& final(self).tree_items == old(self).tree_items
                    &&& final(self).selected_index == old(self).selected_index
                },
                ApiResponse::ClusterInfo(Err(e)) => {
                    let expired = is_auth_failure(e@) && old(self).has_saved_token;
                    &&& final(self).same_view(*old(self))
                    &&& final(self).same_data(*old(self))
                    &&& if expired {
                        &&& !final(self).has_saved_token
                        &&& !final(self).loading
                        &&& final(self).input_mode == InputMode::Login
                        &&& final(self).login_error is Some
                        &&& final(self).login_error->0@ == session_expired_text()
                        &&& final(self).outbox@ == old(self).outbox@.push(Effect::DeleteSavedToken)
                        &&& final(self).last_error == old(self).last_error
                    } else {
                        &&& final(self).has_saved_token == old(self).has_saved_token
                        &&& final(self).loading == (old(self).loading
                            && old(self).cluster_info is None)
                        &&& final(self).input_mode == old(self).input_mode
                        &&& final(self).login_error == old(self).login_error
                        &&& final(self).outbox == old(self).outbox
                        &&& final(self).last_error is Some
                        &&& final(self).last_error->0@ == "Cluster: "@ + e@
                    }
                },
                ApiResponse::Tiers(Ok(tiers)) => {
                    &&& final(self).tiers == tiers
                    &&& final(self).tree_items@ == tree_of(
                        tiers@,
                        old(self).expanded_tiers@,
                        old(self).expanded_replicasets@,
                    )
                    &&& final(self).selected_index == clamp_selection(
                        old(self).selected_index,
                        final(self).count_of(),
                    )
                    &&& final(self).loading == (old(self).loading && old(self).cluster_info is None)
                    &&& final(self).cluster_info == old(self).cluster_info
                    &&& final(self).last_error == old(self).last_error
                    &&& final(self).input_mode == old(self).input_mode
                    &&& final(self).outbox == old(self).outbox
                    &&& final(self).same_view(*old(self))
                },
                ApiResponse::Tiers(Err(e)) => {
                    let expired = is_auth_failure(e@) && old(self).has_saved_token;
                    &&& final(self).same_view(*old(self))
                    &&& final(self).same_data(*old(self))
                    &&& if expired {
                        &&& !final(self).has_saved_token
                        &&& !final(self).loading
                        &&& final(self).input_mode == InputMode::Login
                        &&& final(self).login_error is Some
                        &&& final(self).login_error->0@ == session_expired_text()
                        &&& final(self).outbox@ == old(self).outbox@.push(Effect::DeleteSavedToken)
                        &&& final(self).last_error == old(self).last_error
                    } else {
                        &&& final(self).has_saved_token == old(self).has_saved_token
                        &&& final(self).loading == (old(self).loading
                            && old(self).cluster_info is None)
                        &&& final(self).input_mode == old(self).input_mode
                        &&& final(self).login_error == old(self).login_error
                        &&& final(self).outbox == old(self).outbox
                        &&& match old(self).last_error {
                            Some(_) => final(self).last_error == old(self).last_error,
                            None => {
                                &&& final(self).last_error is Some
                                &&& final(self).last_error->0@ == "Tiers: "@ + e@
                            },
                        }
                    }
                },
            },
    {
        match response {
            ApiResponse::Config(result) => self.on_config(result),
            ApiResponse::Login(result) => self.on_login(result),
            ApiResponse::ClusterInfo(result) => self.on_cluster_info(result),
            ApiResponse::Tiers(result) => self.on_tiers(result),
        }
    }

    /// Rebuilds the Tiers view from the data and the expansion sets, then
    /// clamps the selection into the active view's rows.
    pub fn rebuild_tree(&mut self)
        ensures
            final(self).wf(),
            final(self).tree_items@ == tree_of(
                old(self).tiers@,
                old(self).expanded_tiers@,
                old(self).expanded_replicasets@,
            ),
            final(self).selected_index == clamp_selection(
                old(self).selected_index,
                final(self).count_of(),
            ),
            final(self).count_of() > 0 ==> final(self).selected_index < final(self).count_of(),
            (final(self).tree_items@, final(self).selected_index) == rebuild_result(
                old(self).tiers@,
                old(self).expanded_tiers@,
                old(self).expanded_replicasets@,
                old(self).view_mode,
                old(self).filter_text@,
                old(self).selected_index,
            ),
            final(self).tiers == old(self).tiers,
            final(self).cluster_info == old(self).cluster_info,
            final(self).same_session(*old(self)),
            final(self).same_view(*old(self)),
            final(self).outbox == old(self).outbox,
            final(self).loading == old(self).loading,
            final(self).input_mode == old(self).input_mode,
            final(self).last_error == old(self).last_error,
            final(self).login_error == old(self).login_error,
            final(self).has_saved_token == old(self).has_saved_token,
            final(self).pending_init == old(self).pending_init,
            final(self).login_password == old(self).login_password,
    {
        self.tree_items = build_tree(&self.tiers, &self.expanded_tiers, &self.expanded_replicasets);
        let count = self.get_item_count();
        if count > 0 && self.selected_index >= count {
            self.selected_index = count - 1;
        }
    }

    /// The number of rows the active view lists (see `count_of`).
    pub fn get_item_count(&self) -> (n: usize)
        ensures
            n == self.count_of(),
    {
        match self.view_mode {
            ViewMode::Tiers => self.tree_items.len(),
            ViewMode::Replicasets => {
                let mut total: usize = 0;
                let mut t: usize = 0;
                while t < self.tiers.len()
                    invariant
                        t <= self.tiers.len(),
                        total == saturate(replicasets_upto(self.tiers@, t as nat)),
                    decreases self.tiers.len() - t,
                {
                    let n = self.tiers[t].replicasets.len();
                    total = if total > usize::MAX - n {
                        usize::MAX
                    } else {
                        total + n
                    };
                    t = t + 1;
                }
                total
            },
            ViewMode::Instances => count_visible(&self.tiers, self.filter_text.as_str()),
        }
    }

    /// The Instances view: filtered by the filter text, sorted by the sort
    /// field and order.
    pub fn get_sorted_instances(&self) -> (r: Vec<(&str, &str, &InstanceInfo)>)
        ensures
            rows_view(r@) == arranged_rows(
                self.tiers@,
                self.filter_text@,
                self.sort_field,
                self.sort_order,
            ),
    {
        sorted_instances(&self.tiers, self.filter_text.as_str(), self.sort_field, self.sort_order)
    }

    /// The instance under the selection, if the active view lists instances
    /// and the selection is on one.
    pub fn get_selected_instance(&self) -> (r: Option<&InstanceInfo>)
        ensures
            match self.view_mode {
                ViewMode::Tiers => match self.tree_instance() {
                    Some(inst) => r is Some && *r->0 == inst,
                    None => r is None,
                },
                ViewMode::Replicasets => r is None,
                ViewMode::Instances => {
                    let rows = arranged_rows(
                        self.tiers@,
                        self.filter_text@,
                        self.sort_field,
                        self.sort_order,
                    );
                    if self.selected_index < rows.len() {
                        r is Some && *r->0 == rows[self.selected_index as int].2
                    } else {
                        r is None
                    }
                },
            },
    {
        match self.view_mode {
            ViewMode::Tiers => {
                if self.selected_index < self.tree_items.len() {
                    match self.tree_items[self.selected_index] {
                        TreeItem::Instance(t, rs, i) => {
                            if t < self.tiers.len() && rs < self.tiers[t].replicasets.len() && i
                                < self.tiers[t].replicasets[rs].instances.len() {
                                Some(&self.tiers[t].replicasets[rs].instances[i])
                            } else {
                                None
                            }
                        },
                        _ => None,
                    }
                } else {
                    None
                }
            },
            ViewMode::Replicasets => None,
            ViewMode::Instances => {
                let rows = self.get_sorted_instances();
                if self.selected_index < rows.len() {
                    proof {
                        assert(rows_view(rows@)[self.selected_index as int] == row_view(
                            rows@[self.selected_index as int],
                        ));
                    }
                    Some(rows[self.selected_index].2)
                } else {
                    None
                }
            },
        }
    }
}

} // verus!
