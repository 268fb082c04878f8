//! User mutations mapped onto provider control methods: key encoding, bounded
//! input and seed queues, optimistic focus with rollback, split requests,
//! neighbour navigation, and close safety. This module plans; it never calls a
//! provider.
use vstd::prelude::*;

use crate::assoc::{self, distinct, lookup, member, unique};
use crate::keys::{encode_key, encode_key_exec};
use crate::layout::{is_pane, pane_ids, LayoutNode};
use crate::text::{
    chars_of, dec_int, int_to_string, is_ws, lower, lower_str, opt_str_view, opt_view, owned,
    push_char, str_eq, string_from, strings_view, trim, trim_bounds,
};

verus! {

pub const DEFAULT_INPUT_BUDGET: i64 = 262144;

pub const DEFAULT_SEED_BUDGET: i64 = 262144;

pub open spec fn opt_bytes(o: Option<Vec<u8>>) -> Option<Seq<u8>> {
    match o {
        Some(v) => Some(v@),
        None => None,
    }
}

/// One unit of input for a provider pane: literal text or a named key.
#[derive(Debug, Clone, PartialEq, Eq)]
pub struct ProviderInput {
    pub pane_id: String,
    pub kind: String,
    pub text: Option<String>,
    pub key: Option<String>,
    pub csi: Option<Vec<u8>>,
}

/// Size an input counts against the pending budget: its escape-sequence bytes
/// for a key, its UTF-8 bytes for text, at least one.
pub open spec fn byte_size(i: ProviderInput) -> int {
    if i.kind@ == "key"@ {
        match i.csi {
            Some(c) => if c@.len() > 0 {
                c@.len() as int
            } else {
                1
            },
            None => 1,
        }
    } else {
        match i.text {
            Some(t) => if (vstd::utf8::encode_utf8(t@).len() as usize) > 0 {
                (vstd::utf8::encode_utf8(t@).len() as usize) as int
            } else {
                1
            },
            None => 1,
        }
    }
}

impl ProviderInput {
    pub fn byte_count(&self) -> (r: usize)
        ensures
            r == byte_size(*self),
    {
        if str_eq(self.kind.as_str(), "key") {
            match &self.csi {
                Some(c) => if c.len() > 0 {
                    c.len()
                } else {
                    1
                },
                None => 1,
            }
        } else {
            match &self.text {
                Some(t) => {
                    let n = t.as_str().len();
                    if n > 0 {
                        n
                    } else {
                        1
                    }
                },
                None => 1,
            }
        }
    }
}

/// The input that a named key produces for `pane_id`.
pub open spec fn named_key_input(pane_id: Seq<char>, raw: Seq<char>) -> Option<
    (Seq<char>, Option<Seq<char>>, Option<Seq<u8>>),
> {
    if pane_id.len() == 0 || raw.len() == 0 {
        None
    } else {
        match encode_key(raw) {
            Some((k, c)) => Some((pane_id, k, c)),
            None => None,
        }
    }
}

/// Encode a tmux- or Herdr-style key name as provider input.
pub fn encode_named_key(pane_id: &str, raw_name: &str) -> (r: Option<ProviderInput>)
    ensures
        match r {
            Some(i) => {
                &&& named_key_input(pane_id@, raw_name@) == Some(
                    (i.pane_id@, opt_view(i.key), opt_bytes(i.csi)),
                )
                &&& i.kind@ == "key"@
                &&& i.text is None
            },
            None => named_key_input(pane_id@, raw_name@) is None,
        },
{
    if pane_id.is_empty() || raw_name.is_empty() {
        return None;
    }
    match encode_key_exec(raw_name) {
        Some((key, csi)) => Some(
            ProviderInput { pane_id: owned(pane_id), kind: owned("key"), text: None, key, csi },
        ),
        None => None,
    }
}

/// Encode manual input: a non-empty key wins, else non-empty text.
pub fn encode_manual_input(pane_id: &str, text: Option<&str>, key: Option<&str>) -> (r: Option<
    ProviderInput,
>)
    ensures
        match key {
            Some(k) if k@.len() > 0 => match r {
                Some(i) => {
                    &&& named_key_input(pane_id@, k@) == Some(
                        (i.pane_id@, opt_view(i.key), opt_bytes(i.csi)),
                    )
                    &&& i.kind@ == "key"@
                    &&& i.text is None
                },
                None => named_key_input(pane_id@, k@) is None,
            },
            _ => match text {
                Some(t) if t@.len() > 0 => r matches Some(i) && i.pane_id@ == pane_id@ && i.kind@
                    == "text"@ && opt_view(i.text) == Some(t@) && i.key is None && i.csi is None,
                _ => r is None,
            },
        },
{
    match key {
        Some(k) => {
            if !k.is_empty() {
                return encode_named_key(pane_id, k);
            }
        },
        None => {},
    }
    match text {
        Some(t) => {
            if !t.is_empty() {
                Some(
                    ProviderInput {
                        pane_id: owned(pane_id),
                        kind: owned("text"),
                        text: Some(owned(t)),
                        key: None,
                        csi: None,
                    },
                )
            } else {
                None
            }
        },
        None => None,
    }
}

/// Bounded queue of provider input, gated by an active flag.
#[derive(Debug, Clone)]
pub struct InputForwarder {
    pub maximum_pending_bytes: i64,
    pub pending_bytes: i64,
    pub epoch: i64,
    pub active: bool,
    pub queue: Vec<ProviderInput>,
    pub overflowed: bool,
}

impl Default for InputForwarder {
    fn default() -> (r: Self)
        ensures
            r.maximum_pending_bytes == DEFAULT_INPUT_BUDGET,
            r.pending_bytes == 0,
            r.epoch == 0,
            r.active,
            r.queue@.len() == 0,
            !r.overflowed,
    {
        InputForwarder::with_budget(DEFAULT_INPUT_BUDGET)
    }
}

impl InputForwarder {
    pub fn with_budget(maximum_pending_bytes: i64) -> (r: Self)
        ensures
            r.maximum_pending_bytes == maximum_pending_bytes,
            r.pending_bytes == 0,
            r.epoch == 0,
            r.active,
            r.queue@.len() == 0,
            !r.overflowed,
    {
        InputForwarder {
            maximum_pending_bytes,
            pending_bytes: 0,
            epoch: 0,
            active: true,
            queue: Vec::new(),
            overflowed: false,
        }
    }

    /// Queue `item` unless inactive or over budget.
    pub fn enqueue(&mut self, item: ProviderInput) -> (r: &'static str)
        ensures
            !old(self).active ==> r@ == "inactive"@ && *final(self) == *old(self),
            old(self).active && old(self).pending_bytes + byte_size(item)
                > old(self).maximum_pending_bytes ==> {
                &&& r@ == "overflow"@
                &&& *final(self) == (InputForwarder { overflowed: true, ..*old(self) })
            },
            old(self).active && old(self).pending_bytes + byte_size(item)
                <= old(self).maximum_pending_bytes ==> {
                &&& r@ == "enqueued"@
                &&& final(self).pending_bytes == old(self).pending_bytes + byte_size(item)
                &&& final(self).queue@ == old(self).queue@.push(item)
                &&& final(self).maximum_pending_bytes == old(self).maximum_pending_bytes
                &&& final(self).epoch == old(self).epoch
                &&& final(self).active == old(self).active
                &&& final(self).overflowed == old(self).overflowed
            },
    {
        if !self.active {
            return "inactive";
        }
        let size = item.byte_count();
        if (self.pending_bytes as i128) + (size as i128) > (self.maximum_pending_bytes as i128) {
            self.overflowed = true;
            return "overflow";
        }
        self.pending_bytes = ((self.pending_bytes as i128) + (size as i128)) as i64;
        self.queue.push(item);
        "enqueued"
    }

    /// Take every queued item, in order.
    pub fn drain(&mut self) -> (r: Vec<ProviderInput>)
        ensures
            r@ == old(self).queue@,
            final(self).queue@.len() == 0,
            final(self).pending_bytes == 0,
            final(self).maximum_pending_bytes == old(self).maximum_pending_bytes,
            final(self).epoch == old(self).epoch,
            final(self).active == old(self).active,
            final(self).overflowed == old(self).overflowed,
    {
        let mut items: Vec<ProviderInput> = Vec::new();
        std::mem::swap(&mut items, &mut self.queue);
        self.pending_bytes = 0;
        items
    }

    /// Stop forwarding: drop the queue and start a new epoch.
    pub fn deactivate(&mut self)
        requires
            old(self).epoch < i64::MAX,
        ensures
            !final(self).active,
            final(self).epoch == old(self).epoch + 1,
            final(self).queue@.len() == 0,
            final(self).pending_bytes == 0,
            final(self).maximum_pending_bytes == old(self).maximum_pending_bytes,
            final(self).overflowed == old(self).overflowed,
    {
        self.active = false;
        self.epoch = self.epoch + 1;
        self.queue = Vec::new();
        self.pending_bytes = 0;
    }
}

/// A focus request sent to the provider and not yet answered.
#[derive(Debug, Clone, PartialEq, Eq)]
pub struct PendingFocus {
    pub request_id: String,
    pub pane_id: String,
    pub previous_pane_id: Option<String>,
}

/// What the host should do about focus.
#[derive(Debug, Clone, PartialEq, Eq)]
pub struct FocusCommand {
    pub pane_id: Option<String>,
    pub send_to_provider: bool,
    pub rolled_back: bool,
    pub request_id: Option<String>,
}

impl FocusCommand {
    fn quiet(pane_id: Option<String>) -> (r: Self)
        ensures
            r.pane_id == pane_id,
            !r.send_to_provider,
            !r.rolled_back,
            r.request_id is None,
    {
        FocusCommand { pane_id, send_to_provider: false, rolled_back: false, request_id: None }
    }
}

/// Optimistic focus: the host moves at once and rolls back on rejection.
#[derive(Debug, Clone)]
pub struct FocusController {
    pub live_pane_ids: Vec<String>,
    pub active_pane_id: Option<String>,
    pub pending: Option<PendingFocus>,
    pub next_id: i64,
}

impl Default for FocusController {
    fn default() -> (r: Self)
        ensures
            r.live_pane_ids@.len() == 0,
            r.active_pane_id is None,
            r.pending is None,
            r.next_id == 0,
    {
        FocusController { live_pane_ids: Vec::new(), active_pane_id: None, pending: None, next_id: 0 }
    }
}

/// A focus request for `pane` is outstanding.
pub open spec fn pending_pane(c: FocusController, pane: Seq<char>) -> bool {
    c.pending is Some && c.pending.unwrap().pane_id@ == pane
}

/// Focus request `rid` is outstanding.
pub open spec fn pending_request(c: FocusController, rid: Seq<char>) -> bool {
    c.pending is Some && c.pending.unwrap().request_id@ == rid
}

/// Request id of the `n`-th focus request: `f<n>`.
pub open spec fn request_id(n: int) -> Seq<char> {
    seq!['f'] + dec_int(n)
}

/// What choosing `pane` does (see [`FocusController::user_select`]): a pane
/// that is not live is ignored; re-choosing the pending pane repeats its
/// request; otherwise focus moves at once and a new request remembers the
/// previous pane.
pub open spec fn select_effect(
    s0: FocusController,
    s1: FocusController,
    pane: Seq<char>,
    r: FocusCommand,
) -> bool {
    &&& (!strings_view(s0.live_pane_ids@).contains(pane) ==> {
        &&& r == FocusCommand {
            pane_id: None,
            send_to_provider: false,
            rolled_back: false,
            request_id: None,
        }
        &&& s1 == s0
    })
    &&& (strings_view(s0.live_pane_ids@).contains(pane) && pending_pane(s0, pane) ==> {
        &&& opt_view(r.pane_id) == Some(pane)
        &&& !r.send_to_provider
        &&& !r.rolled_back
        &&& r.request_id == Some(s0.pending.unwrap().request_id)
        &&& s1 == s0
    })
    &&& (strings_view(s0.live_pane_ids@).contains(pane) && !pending_pane(s0, pane) ==> {
        &&& s1.next_id == s0.next_id + 1
        &&& s1.pending matches Some(p) && p.request_id@ == request_id(
            s1.next_id as int,
        ) && p.pane_id@ == pane && p.previous_pane_id == s0.active_pane_id
        &&& opt_view(s1.active_pane_id) == Some(pane)
        &&& s1.live_pane_ids == s0.live_pane_ids
        &&& opt_view(r.pane_id) == Some(pane)
        &&& r.send_to_provider
        &&& !r.rolled_back
        &&& opt_view(r.request_id) == Some(request_id(s1.next_id as int))
    })
}

/// What a rejection of request `rid` does (see
/// [`FocusController::command_rejected`]): the outstanding request is
/// dropped and the previous pane gets focus back; any other id changes
/// nothing.
pub open spec fn reject_effect(
    s0: FocusController,
    s1: FocusController,
    rid: Seq<char>,
    r: FocusCommand,
) -> bool {
    &&& (pending_request(s0, rid) ==> {
        &&& s1.pending is None
        &&& s1.active_pane_id == s0.pending.unwrap().previous_pane_id
        &&& s1.live_pane_ids == s0.live_pane_ids
        &&& s1.next_id == s0.next_id
        &&& r.pane_id == s0.pending.unwrap().previous_pane_id
        &&& !r.send_to_provider
        &&& r.rolled_back
        &&& opt_view(r.request_id) == Some(rid)
    })
    &&& (!pending_request(s0, rid) ==> {
        &&& s1 == s0
        &&& r == FocusCommand {
            pane_id: s0.active_pane_id,
            send_to_provider: false,
            rolled_back: false,
            request_id: None,
        }
    })
}

/// A rejected focus request restores exactly the focus that preceded it.
pub proof fn law_rejected_focus_restores(
    s0: FocusController,
    s1: FocusController,
    s2: FocusController,
    pane: Seq<char>,
    r1: FocusCommand,
    r2: FocusCommand,
)
    requires
        select_effect(s0, s1, pane, r1),
        strings_view(s0.live_pane_ids@).contains(pane),
        !pending_pane(s0, pane),
        r1.request_id is Some,
        reject_effect(s1, s2, r1.request_id.unwrap()@, r2),
    ensures
        s2.active_pane_id == s0.active_pane_id,
        s2.pending is None,
        r2.rolled_back,
        r2.pane_id == s0.active_pane_id,
{
}

impl FocusController {
    /// The user picked `pane_id`.
    pub fn user_select(&mut self, pane_id: &str) -> (r: FocusCommand)
        requires
            old(self).next_id < i64::MAX,
        ensures
            select_effect(*old(self), *final(self), pane_id@, r),
    {
        if !crate::text::contains_str(&self.live_pane_ids, pane_id) {
            return FocusCommand::quiet(None);
        }
        match &self.pending {
            Some(p) => {
                if str_eq(p.pane_id.as_str(), pane_id) {
                    return FocusCommand {
                        pane_id: Some(owned(pane_id)),
                        send_to_provider: false,
                        rolled_back: false,
                        request_id: Some(p.request_id.clone()),
                    };
                }
            },
            None => {},
        }
        self.next_id = self.next_id + 1;
        let mut rid = String::new();
        push_char(&mut rid, 'f');
        let num = int_to_string(self.next_id);
        rid.append(num.as_str());
        self.pending = Some(
            PendingFocus {
                request_id: rid.clone(),
                pane_id: owned(pane_id),
                previous_pane_id: self.active_pane_id.clone(),
            },
        );
        self.active_pane_id = Some(owned(pane_id));
        FocusCommand {
            pane_id: Some(owned(pane_id)),
            send_to_provider: true,
            rolled_back: false,
            request_id: Some(rid),
        }
    }

    /// The provider rejected request `request_id`: restore the earlier focus.
    pub fn command_rejected(&mut self, request_id: &str) -> (r: FocusCommand)
        ensures
            reject_effect(*old(self), *final(self), request_id@, r),
    {
        let matches = match &self.pending {
            Some(p) => str_eq(p.request_id.as_str(), request_id),
            None => false,
        };
        if !matches {
            return FocusCommand::quiet(self.active_pane_id.clone());
        }
        let pending = self.pending.take();
        match pending {
            Some(p) => {
                self.active_pane_id = p.previous_pane_id.clone();
                FocusCommand {
                    pane_id: p.previous_pane_id,
                    send_to_provider: false,
                    rolled_back: true,
                    request_id: Some(owned(request_id)),
                }
            },
            None => FocusCommand::quiet(self.active_pane_id.clone()),
        }
    }

    /// The provider reports `pane_id` focused.
    pub fn provider_confirms(&mut self, pane_id: &str) -> (r: FocusCommand)
        ensures
            pending_pane(*old(self), pane_id@) ==> final(self).pending is None,
            !pending_pane(*old(self), pane_id@) ==> final(self).pending == old(self).pending,
            opt_view(final(self).active_pane_id) == Some(pane_id@),
            final(self).live_pane_ids == old(self).live_pane_ids,
            final(self).next_id == old(self).next_id,
            opt_view(r.pane_id) == Some(pane_id@),
            !r.send_to_provider,
            !r.rolled_back,
            r.request_id is None,
    {
        let clear = match &self.pending {
            Some(p) => str_eq(p.pane_id.as_str(), pane_id),
            None => false,
        };
        if clear {
            self.pending = None;
        }
        self.active_pane_id = Some(owned(pane_id));
        FocusCommand::quiet(Some(owned(pane_id)))
    }
}

/// A split requested by the user.
#[derive(Debug, Clone, PartialEq, Eq)]
pub struct UserSplit {
    pub from_pane_id: String,
    pub orientation: String,
    pub insert_first: bool,
    pub focus_created: bool,
}

pub fn request_split(from_pane_id: &str, vertical: bool, insert_first: bool, focus_created: bool) -> (r:
    Option<UserSplit>)
    ensures
        from_pane_id@.len() == 0 <==> r is None,
        r matches Some(s) ==> {
            &&& s.from_pane_id@ == from_pane_id@
            &&& s.orientation@ == (if vertical {
                "vertical"@
            } else {
                "horizontal"@
            })
            &&& s.insert_first == insert_first
            &&& s.focus_created == focus_created
        },
{
    if from_pane_id.is_empty() {
        return None;
    }
    Some(
        UserSplit {
            from_pane_id: owned(from_pane_id),
            orientation: owned(
                if vertical {
                    "vertical"
                } else {
                    "horizontal"
                },
            ),
            insert_first,
            focus_created,
        },
    )
}

/// Child-index path from `n` down to the first leaf with id `pane`.
pub open spec fn path_to(n: LayoutNode, pane: Seq<char>) -> Option<Seq<int>>
    decreases n, 0int,
{
    if is_pane(n) {
        if opt_view(n.pane_id) == Some(pane) {
            Some(Seq::empty())
        } else {
            None
        }
    } else {
        path_in(n.children@, pane, 0)
    }
}

pub open spec fn path_in(cs: Seq<LayoutNode>, pane: Seq<char>, i: int) -> Option<Seq<int>>
    decreases cs, cs.len() - i,
{
    if i < 0 || i >= cs.len() {
        None
    } else {
        match path_to(cs[i], pane) {
            Some(p) => Some(seq![i] + p),
            None => path_in(cs, pane, i + 1),
        }
    }
}

/// The node reached by following `p` from `n`.
pub open spec fn node_at(n: LayoutNode, p: Seq<int>) -> Option<LayoutNode>
    decreases p.len(),
{
    if p.len() == 0 {
        Some(n)
    } else {
        match node_at(n, p.drop_last()) {
            Some(m) => if 0 <= p.last() < m.children@.len() {
                Some(m.children@[p.last()])
            } else {
                None
            },
            None => None,
        }
    }
}

/// Leaf of `n` that is entered first when approaching from `dir`.
pub open spec fn edge_pane(n: LayoutNode, dir: Seq<char>) -> Option<Seq<char>>
    decreases n,
{
    if is_pane(n) {
        opt_view(n.pane_id)
    } else if n.children@.len() == 0 {
        None
    } else if (dir == "left"@ && n.kind@ == "horizontal"@) || (dir == "up"@ && n.kind@
        == "vertical"@) {
        edge_pane(n.children@.last(), dir)
    } else {
        edge_pane(n.children@[0], dir)
    }
}

/// Neighbour of child `ci` of `parent` in direction `dir`.
pub open spec fn sibling(parent: LayoutNode, ci: int, dir: Seq<char>) -> Option<LayoutNode> {
    if (dir == "left"@ || dir == "up"@) && ci > 0 && ci - 1 < parent.children@.len() {
        Some(parent.children@[ci - 1])
    } else if (dir == "right"@ || dir == "down"@) && 0 <= ci && ci + 1 < parent.children@.len() {
        Some(parent.children@[ci + 1])
    } else {
        None
    }
}

/// Walk up the path from depth `d`, looking for a split along the wanted axis
/// with a neighbour in the wanted direction.
pub open spec fn scan_up(root: LayoutNode, p: Seq<int>, dir: Seq<char>, d: int) -> Option<Seq<char>>
    decreases d + 1,
{
    if d < 0 {
        None
    } else {
        match node_at(root, p.take(d)) {
            None => None,
            Some(parent) => {
                let want_h = dir == "left"@ || dir == "right"@;
                if is_pane(parent) || (parent.kind@ == "horizontal"@) != want_h {
                    scan_up(root, p, dir, d - 1)
                } else {
                    match sibling(parent, p[d], dir) {
                        Some(nb) => edge_pane(nb, dir),
                        None => scan_up(root, p, dir, d - 1),
                    }
                }
            },
        }
    }
}

pub open spec fn adjacent(root: LayoutNode, pane: Seq<char>, dir: Seq<char>) -> Option<Seq<char>> {
    match path_to(root, pane) {
        None => None,
        Some(p) => if p.len() == 0 {
            None
        } else {
            scan_up(root, p, dir, p.len() - 1)
        },
    }
}

fn path_to_pane(n: &LayoutNode, pane: &str) -> (r: Option<Vec<usize>>)
    ensures
        match r {
            Some(v) => path_to(*n, pane@) == Some(v@.map_values(|x: usize| x as int)),
            None => path_to(*n, pane@) is None,
        },
    decreases n, 0int,
{
    if n.is_leaf() {
        if crate::text::opt_string_eq(&n.pane_id, pane) {
            let v: Vec<usize> = Vec::new();
            assert(v@.map_values(|x: usize| x as int) =~= Seq::<int>::empty());
            return Some(v);
        }
        return None;
    }
    path_in_exec(n, pane, 0)
}

fn path_in_exec(n: &LayoutNode, pane: &str, i: usize) -> (r: Option<Vec<usize>>)
    requires
        !is_pane(*n),
    ensures
        match r {
            Some(v) => path_in(n.children@, pane@, i as int) == Some(
                v@.map_values(|x: usize| x as int),
            ),
            None => path_in(n.children@, pane@, i as int) is None,
        },
    decreases n.children@, n.children@.len() - i,
{
    if i >= n.children.len() {
        return None;
    }
    match path_to_pane(&n.children[i], pane) {
        Some(sub) => {
            let mut v: Vec<usize> = Vec::new();
            v.push(i);
            let mut j: usize = 0;
            while j < sub.len()
                invariant
                    j <= sub.len(),
                    v@ == seq![i] + sub@.subrange(0, j as int),
                decreases sub.len() - j,
            {
                v.push(sub[j]);
                assert(sub@.subrange(0, j + 1) == sub@.subrange(0, j as int).push(sub@[j as int]));
                j += 1;
            }
            assert(sub@.subrange(0, sub@.len() as int) =~= sub@);
            assert(v@.map_values(|x: usize| x as int) =~= seq![i as int] + sub@.map_values(
                |x: usize| x as int,
            ));
            Some(v)
        },
        None => path_in_exec(n, pane, i + 1),
    }
}

fn edge_pane_exec(n: &LayoutNode, dir: &str) -> (r: Option<String>)
    ensures
        opt_view(r) == edge_pane(*n, dir@),
    decreases n,
{
    if n.is_leaf() {
        return crate::text::clone_opt(&n.pane_id);
    }
    if n.children.len() == 0 {
        return None;
    }
    if (str_eq(dir, "left") && str_eq(n.kind.as_str(), "horizontal")) || (str_eq(dir, "up")
        && str_eq(n.kind.as_str(), "vertical")) {
        edge_pane_exec(&n.children[n.children.len() - 1], dir)
    } else {
        edge_pane_exec(&n.children[0], dir)
    }
}

/// Follow `p[..d]` from `n`.
fn node_at_exec<'a>(n: &'a LayoutNode, p: &Vec<usize>, d: usize) -> (r: Option<&'a LayoutNode>)
    requires
        d <= p.len(),
    ensures
        match r {
            Some(m) => node_at(*n, p@.map_values(|x: usize| x as int).take(d as int)) == Some(*m),
            None => node_at(*n, p@.map_values(|x: usize| x as int).take(d as int)) is None,
        },
{
    let ghost q = p@.map_values(|x: usize| x as int);
    let mut cur = n;
    let mut k: usize = 0;
    while k < d
        invariant
            k <= d <= p.len(),
            q == p@.map_values(|x: usize| x as int),
            node_at(*n, q.take(k as int)) == Some(*cur),
        decreases d - k,
    {
        assert(q.take(k + 1).drop_last() =~= q.take(k as int));
        assert(q.take(k + 1).last() == p@[k as int] as int);
        let idx = p[k];
        if idx >= cur.children.len() {
            proof {
                let mut j = k + 1;
                assert(node_at(*n, q.take(k + 1)) is None);
                lemma_node_at_none_extends(*n, q, k + 1, d as int);
            }
            return None;
        }
        cur = &cur.children[idx];
        k += 1;
    }
    Some(cur)
}

proof fn lemma_node_at_none_extends(n: LayoutNode, q: Seq<int>, a: int, b: int)
    requires
        0 <= a <= b <= q.len(),
        node_at(n, q.take(a)) is None,
    ensures
        node_at(n, q.take(b)) is None,
    decreases b - a,
{
    if a < b {
        assert(q.take(a + 1).drop_last() =~= q.take(a));
        lemma_node_at_none_extends(n, q, a + 1, b);
    }
}

proof fn lemma_node_at_cons(n: LayoutNode, i: int, q: Seq<int>)
    ensures
        node_at(n, seq![i] + q) == if 0 <= i < n.children@.len() {
            node_at(n.children@[i], q)
        } else {
            None
        },
    decreases q.len(),
{
    if q.len() == 0 {
        assert(seq![i] + q =~= seq![i]);
        assert(seq![i].drop_last() =~= Seq::<int>::empty());
        assert(seq![i].last() == i);
        assert(node_at(n, Seq::<int>::empty()) == Some(n));
        if 0 <= i < n.children@.len() {
            assert(node_at(n.children@[i], q) == Some(n.children@[i]));
        }
    } else {
        lemma_node_at_cons(n, i, q.drop_last());
        assert((seq![i] + q).drop_last() =~= seq![i] + q.drop_last());
        assert((seq![i] + q).last() == q.last());
    }
}

proof fn lemma_path_to_valid(n: LayoutNode, pane: Seq<char>)
    ensures
        path_to(n, pane) matches Some(p) ==> forall|d: int|
            0 <= d <= p.len() ==> #[trigger] node_at(n, p.take(d)) is Some,
    decreases n, 0int,
{
    if !is_pane(n) {
        lemma_path_in_valid(n, pane, 0);
    } else if path_to(n, pane) is Some {
        let p = path_to(n, pane).unwrap();
        assert forall|d: int| 0 <= d <= p.len() implies #[trigger] node_at(n, p.take(d)) is Some by {
            assert(p.take(d) =~= Seq::<int>::empty());
        }
    }
}

proof fn lemma_path_in_valid(n: LayoutNode, pane: Seq<char>, i: int)
    ensures
        path_in(n.children@, pane, i) matches Some(p) ==> forall|d: int|
            0 <= d <= p.len() ==> #[trigger] node_at(n, p.take(d)) is Some,
    decreases n.children@, n.children@.len() - i,
{
    let cs = n.children@;
    if 0 <= i < cs.len() {
        assert(decreases_to!(n.children@ => cs[i]));
        lemma_path_to_valid(cs[i], pane);
        match path_to(cs[i], pane) {
            Some(sub) => {
                let p = seq![i] + sub;
                assert forall|d: int| 0 <= d <= p.len() implies #[trigger] node_at(n, p.take(d)) is Some by {
                    if d == 0 {
                        assert(p.take(d) =~= Seq::<int>::empty());
                    } else {
                        assert(p.take(d) =~= seq![i] + sub.take(d - 1));
                        lemma_node_at_cons(n, i, sub.take(d - 1));
                    }
                }
            },
            None => {
                lemma_path_in_valid(n, pane, i + 1);
            },
        }
    }
}

/// The neighbour on side `dir` of the child at depth `d` of path `p`: the
/// child before it (`left`, `up`) or after it (`right`, `down`) in its
/// parent, when that parent is a split along the axis of `dir`.
pub open spec fn side_neighbour(root: LayoutNode, p: Seq<int>, dir: Seq<char>, d: int) -> Option<LayoutNode> {
    match node_at(root, p.take(d)) {
        Some(parent) => {
            let along = (parent.kind@ == "horizontal"@) == (dir == "left"@ || dir == "right"@);
            let cs = parent.children@;
            let ci = p[d];
            if is_pane(parent) || !along {
                None
            } else if (dir == "left"@ || dir == "up"@) && 1 <= ci <= cs.len() {
                Some(cs[ci - 1])
            } else if (dir == "right"@ || dir == "down"@) && 0 <= ci && ci + 1 < cs.len() {
                Some(cs[ci + 1])
            } else {
                None
            }
        },
        None => None,
    }
}

proof fn lemma_scan_up_nearest(root: LayoutNode, p: Seq<int>, dir: Seq<char>, d: int)
    requires
        -1 <= d < p.len(),
        forall|e: int| 0 <= e <= p.len() ==> #[trigger] node_at(root, p.take(e)) is Some,
    ensures
        (forall|e: int| 0 <= e <= d ==> #[trigger] side_neighbour(root, p, dir, e) is None) ==> scan_up(
            root,
            p,
            dir,
            d,
        ) is None,
        forall|e: int|
            0 <= e <= d && #[trigger] side_neighbour(root, p, dir, e) is Some && (forall|f: int|
                e < f <= d ==> side_neighbour(root, p, dir, f) is None) ==> scan_up(root, p, dir, d) == edge_pane(
                side_neighbour(root, p, dir, e).unwrap(),
                dir,
            ),
    decreases d + 1,
{
    if d >= 0 {
        lemma_scan_up_nearest(root, p, dir, d - 1);
        assert(node_at(root, p.take(d)) is Some);
        let parent = node_at(root, p.take(d)).unwrap();
        let want_h = dir == "left"@ || dir == "right"@;
        if !(is_pane(parent) || (parent.kind@ == "horizontal"@) != want_h) {
            assert(sibling(parent, p[d], dir) == side_neighbour(root, p, dir, d));
        } else {
            assert(side_neighbour(root, p, dir, d) is None);
        }
    }
}

/// The pane next to a pane in a direction is found in the nearest split
/// around it, along that direction's axis, that has a child on that side:
/// walking out from the pane, splits with no such child are passed over,
/// and the answer is the edge pane of the first neighbour found. There is
/// no adjacent pane only when no enclosing split has a neighbour on that
/// side (or the pane is not in the tree).
pub proof fn law_adjacent_is_nearest_neighbour(root: LayoutNode, pane: Seq<char>, dir: Seq<char>)
    ensures
        path_to(root, pane) is None ==> adjacent(root, pane, dir) is None,
        path_to(root, pane) matches Some(p) ==> {
            &&& (forall|d: int| 0 <= d < p.len() ==> #[trigger] side_neighbour(root, p, dir, d) is None)
                ==> adjacent(root, pane, dir) is None
            &&& forall|d: int|
                0 <= d < p.len() && #[trigger] side_neighbour(root, p, dir, d) is Some && (forall|f: int|
                    d < f < p.len() ==> side_neighbour(root, p, dir, f) is None) ==> adjacent(root, pane, dir)
                    == edge_pane(side_neighbour(root, p, dir, d).unwrap(), dir)
        },
{
    lemma_path_to_valid(root, pane);
    if path_to(root, pane) is Some {
        let p = path_to(root, pane).unwrap();
        if p.len() > 0 {
            lemma_scan_up_nearest(root, p, dir, p.len() - 1);
        }
    }
}


proof fn lemma_ids_list_has(cs: Seq<LayoutNode>, i: int, x: Seq<char>)
    requires
        0 <= i < cs.len(),
        pane_ids(cs[i]).contains(x),
    ensures
        crate::layout::pane_ids_list(cs).contains(x),
    decreases cs.len(),
{
    let l = crate::layout::pane_ids_list(cs.drop_last());
    let r = pane_ids(cs.last());
    if i < cs.len() - 1 {
        assert(cs.drop_last()[i] == cs[i]);
        lemma_ids_list_has(cs.drop_last(), i, x);
        let k = choose|k: int| 0 <= k < l.len() && l[k] == x;
        assert((l + r)[k] == x);
    } else {
        let k = choose|k: int| 0 <= k < r.len() && r[k] == x;
        assert((l + r)[l.len() + k] == x);
    }
}

proof fn lemma_edge_in(n: LayoutNode, dir: Seq<char>)
    ensures
        edge_pane(n, dir) matches Some(x) ==> pane_ids(n).contains(x),
    decreases n,
{
    if is_pane(n) {
        if let Some(id) = n.pane_id {
            assert(seq![id@][0] == id@);
        }
    } else if n.children@.len() > 0 {
        let cs = n.children@;
        let k = if (dir == "left"@ && n.kind@ == "horizontal"@) || (dir == "up"@ && n.kind@ == "vertical"@) {
            cs.len() - 1
        } else {
            0
        };
        assert(decreases_to!(n => n.children));
        assert(decreases_to!(n.children => n.children@));
        assert(decreases_to!(n.children@ => n.children@[k]));
        lemma_edge_in(cs[k], dir);
        if edge_pane(n, dir) is Some {
            lemma_ids_list_has(cs, k, edge_pane(n, dir).unwrap());
        }
    }
}

/// The pane entered when moving into a split comes from the side one
/// enters from: moving left into a side-by-side split, or up into a
/// stacked one, lands in its last child; any other move lands in its
/// first child. The pane entered is always one of the split's panes.
pub proof fn law_edge_pane_faces_the_move(n: LayoutNode, dir: Seq<char>)
    ensures
        edge_pane(n, dir) matches Some(x) ==> {
            &&& pane_ids(n).contains(x)
            &&& !is_pane(n) ==> if (dir == "left"@ && n.kind@ == "horizontal"@) || (dir == "up"@ && n.kind@
                == "vertical"@) {
                pane_ids(n.children@.last()).contains(x)
            } else {
                pane_ids(n.children@[0]).contains(x)
            }
        },
{
    lemma_edge_in(n, dir);
    if !is_pane(n) && n.children@.len() > 0 {
        lemma_edge_in(n.children@.last(), dir);
        lemma_edge_in(n.children@[0], dir);
    }
}

/// The pane next to `pane_id` in `direction` (`left`, `right`, `up`, `down`).
pub fn adjacent_pane(node: &LayoutNode, pane_id: &str, direction: &str) -> (r: Option<String>)
    ensures
        opt_view(r) == adjacent(*node, pane_id@, direction@),
{
    let path = match path_to_pane(node, pane_id) {
        Some(p) => p,
        None => {
            return None;
        },
    };
    if path.len() == 0 {
        return None;
    }
    let ghost q = path@.map_values(|x: usize| x as int);
    let want_h = str_eq(direction, "left") || str_eq(direction, "right");
    let mut depth = path.len();
    while depth > 0
        invariant
            depth <= path.len(),
            path.len() > 0,
            q == path@.map_values(|x: usize| x as int),
            want_h == (direction@ == "left"@ || direction@ == "right"@),
            adjacent(*node, pane_id@, direction@) == scan_up(*node, q, direction@, depth - 1),
        decreases depth,
    {
        let d = depth - 1;
        let parent = match node_at_exec(node, &path, d) {
            Some(m) => m,
            None => {
                return None;
            },
        };
        if parent.is_leaf() || str_eq(parent.kind.as_str(), "horizontal") != want_h {
            depth = d;
            continue ;
        }
        let ci = path[d];
        assert(q[d as int] == ci as int);
        let left_up = str_eq(direction, "left") || str_eq(direction, "up");
        let right_down = str_eq(direction, "right") || str_eq(direction, "down");
        if left_up && ci > 0 && ci - 1 < parent.children.len() {
            return edge_pane_exec(&parent.children[ci - 1], direction);
        } else if right_down && parent.children.len() > 0 && ci < parent.children.len() - 1 {
            return edge_pane_exec(&parent.children[ci + 1], direction);
        }
        depth = d;
    }
    None
}

/// Snapshot seeds for panes that are not ready yet, bounded per snapshot.
#[derive(Debug, Clone)]
pub struct PaneSeedQueue {
    pub maximum_bytes: i64,
    pub pending: Vec<(String, Vec<u8>)>,
    pub kinds: Vec<(String, String)>,
    pub targets: Vec<(String, (i64, i64))>,
    pub deferred_full: Vec<String>,
}

impl PaneSeedQueue {
    /// Keys of each map are distinct.
    pub open spec fn wf(self) -> bool {
        &&& unique(self.pending@)
        &&& unique(self.kinds@)
        &&& unique(self.targets@)
        &&& distinct(self.deferred_full@)
    }

    pub fn with_budget(maximum_bytes: i64) -> (r: Self)
        ensures
            r.wf(),
            r.maximum_bytes == maximum_bytes,
            r.pending@.len() == 0,
            r.kinds@.len() == 0,
            r.targets@.len() == 0,
            r.deferred_full@.len() == 0,
    {
        PaneSeedQueue {
            maximum_bytes,
            pending: Vec::new(),
            kinds: Vec::new(),
            targets: Vec::new(),
            deferred_full: Vec::new(),
        }
    }

    /// Pending seed bytes for `pane_id`.
    pub fn pending_for(&self, pane_id: &str) -> (r: Option<Vec<u8>>)
        requires
            self.wf(),
        ensures
            opt_bytes(r) == match lookup(self.pending@, pane_id@) {
                Some(v) => Some(v@),
                None => None,
            },
    {
        match assoc::get(&self.pending, pane_id) {
            Some(v) => Some(v.clone()),
            None => None,
        }
    }

    /// Whether a full snapshot for `pane_id` was deferred for being too large.
    pub fn is_deferred(&self, pane_id: &str) -> (r: bool)
        ensures
            r == member(self.deferred_full@, pane_id@),
    {
        assoc::set_contains(&self.deferred_full, pane_id)
    }

    /// Queue a seed; a snapshot over budget is never truncated, only deferred.
    pub fn queue(&mut self, pane_id: &str, data: &[u8], kind: &str, target_grid: Option<(i64, i64)>) -> (r:
        &'static str)
        requires
            old(self).wf(),
        ensures
            final(self).wf(),
            final(self).maximum_bytes == old(self).maximum_bytes,
            data@.len() == 0 ==> r@ == "empty"@ && *final(self) == *old(self),
            data@.len() > 0 && data@.len() > old(self).maximum_bytes ==> {
                &&& r@ == "overflow"@
                &&& forall|q: Seq<char>| #[trigger]
                    member(final(self).deferred_full@, q) == (member(old(self).deferred_full@, q)
                        || q == pane_id@)
                &&& forall|q: Seq<char>| #[trigger]
                    lookup(final(self).pending@, q) == if q == pane_id@ {
                        None
                    } else {
                        lookup(old(self).pending@, q)
                    }
                &&& final(self).kinds == old(self).kinds
                &&& final(self).targets == old(self).targets
            },
            data@.len() > 0 && data@.len() <= old(self).maximum_bytes ==> {
                &&& r@ == "queued"@
                &&& lookup(final(self).pending@, pane_id@) is Some
                &&& lookup(final(self).pending@, pane_id@).unwrap()@ == data@
                &&& forall|q: Seq<char>| q != pane_id@ ==> #[trigger]
                    lookup(final(self).pending@, q) == lookup(old(self).pending@, q)
                &&& lookup(final(self).kinds@, pane_id@) is Some
                &&& lookup(final(self).kinds@, pane_id@).unwrap()@ == kind@
                &&& forall|q: Seq<char>| q != pane_id@ ==> #[trigger]
                    lookup(final(self).kinds@, q) == lookup(old(self).kinds@, q)
                &&& forall|q: Seq<char>| #[trigger]
                    lookup(final(self).targets@, q) == if q == pane_id@ && target_grid is Some {
                        target_grid
                    } else {
                        lookup(old(self).targets@, q)
                    }
                &&& final(self).deferred_full == old(self).deferred_full
            },
    {
        if data.len() == 0 {
            return "empty";
        }
        if (data.len() as i128) > (self.maximum_bytes as i128) {
            assoc::set_insert(&mut self.deferred_full, pane_id);
            assoc::remove(&mut self.pending, pane_id);
            return "overflow";
        }
        let bytes = vstd::slice::slice_to_vec(data);
        let k = owned(kind);
        assoc::set(&mut self.pending, owned(pane_id), bytes);
        assoc::set(&mut self.kinds, owned(pane_id), k);
        match target_grid {
            Some(t) => {
                assoc::set(&mut self.targets, owned(pane_id), t);
            },
            None => {},
        }
        "queued"
    }

    /// The pane is ready at `cols`x`rows`: release its seed unless it was
    /// queued for a different grid.
    pub fn note_ready(&mut self, pane_id: &str, cols: i64, rows: i64) -> (r: Option<Vec<u8>>)
        requires
            old(self).wf(),
        ensures
            final(self).wf(),
            final(self).maximum_bytes == old(self).maximum_bytes,
            (lookup(old(self).targets@, pane_id@) matches Some(t) && t != (cols, rows)) ==> r is None
                && *final(self) == *old(self),
            !(lookup(old(self).targets@, pane_id@) matches Some(t) && t != (cols, rows)) ==> {
                &&& r == lookup(old(self).pending@, pane_id@)
                &&& forall|q: Seq<char>| #[trigger]
                    lookup(final(self).pending@, q) == if q == pane_id@ {
                        None
                    } else {
                        lookup(old(self).pending@, q)
                    }
                &&& forall|q: Seq<char>| #[trigger]
                    lookup(final(self).kinds@, q) == if q == pane_id@ {
                        None
                    } else {
                        lookup(old(self).kinds@, q)
                    }
                &&& forall|q: Seq<char>| #[trigger]
                    lookup(final(self).targets@, q) == if q == pane_id@ {
                        None
                    } else {
                        lookup(old(self).targets@, q)
                    }
                &&& forall|q: Seq<char>| #[trigger]
                    member(final(self).deferred_full@, q) == if r is Some {
                        member(old(self).deferred_full@, q) && q != pane_id@
                    } else {
                        member(old(self).deferred_full@, q)
                    }
            },
    {
        match assoc::get(&self.targets, pane_id) {
            Some(t) => {
                if t.0 != cols || t.1 != rows {
                    return None;
                }
            },
            None => {},
        }
        let data = assoc::remove(&mut self.pending, pane_id);
        assoc::remove(&mut self.kinds, pane_id);
        assoc::remove(&mut self.targets, pane_id);
        if data.is_some() {
            assoc::set_remove(&mut self.deferred_full, pane_id);
        }
        data
    }
}

impl Default for PaneSeedQueue {
    fn default() -> (r: Self)
        ensures
            r.wf(),
            r.maximum_bytes == DEFAULT_SEED_BUDGET,
            r.pending@.len() == 0,
            r.kinds@.len() == 0,
            r.targets@.len() == 0,
            r.deferred_full@.len() == 0,
    {
        PaneSeedQueue::with_budget(DEFAULT_SEED_BUDGET)
    }
}

/// Whether a tab has a command running that closing would interrupt.
#[derive(Debug, Clone, PartialEq, Eq)]
pub struct TabActivity {
    pub has_active_command: bool,
    pub active_command_name: Option<String>,
    pub needs_close_confirmation: bool,
}

/// Agent statuses that mean work is in progress (ASCII case-insensitive).
pub open spec fn busy(status: Seq<char>) -> bool {
    let l = lower(status);
    l == "working"@ || l == "blocked"@ || l == "running"@ || l == "command"@
}

pub fn busy_status(status: &str) -> (r: bool)
    ensures
        r == busy(status@),
{
    let l = lower_str(status);
    str_eq(l.as_str(), "working") || str_eq(l.as_str(), "blocked") || str_eq(l.as_str(), "running")
        || str_eq(l.as_str(), "command")
}

/// Name of the first agent entry for `pane`, if it is non-empty.
pub open spec fn agent_name(agents: Seq<(String, String)>, pane: Seq<char>, i: int) -> Option<
    Seq<char>,
>
    decreases agents.len() - i,
{
    if i < 0 || i >= agents.len() {
        None
    } else if agents[i].0@ == pane {
        if agents[i].1@.len() > 0 {
            Some(agents[i].1@)
        } else {
            None
        }
    } else {
        agent_name(agents, pane, i + 1)
    }
}

/// First busy pane (from index `i`) that has a named agent: that name.
pub open spec fn busy_command(
    statuses: Seq<(String, String)>,
    agents: Seq<(String, String)>,
    i: int,
) -> Option<Seq<char>>
    decreases statuses.len() - i,
{
    if i < 0 || i >= statuses.len() {
        None
    } else if busy(statuses[i].1@) && agent_name(agents, statuses[i].0@, 0) is Some {
        agent_name(agents, statuses[i].0@, 0)
    } else {
        busy_command(statuses, agents, i + 1)
    }
}

pub open spec fn any_busy(statuses: Seq<(String, String)>) -> bool {
    exists|i: int| 0 <= i < statuses.len() && busy(statuses[i].1@)
}

fn agent_name_exec(agents: &[(String, String)], pane: &str) -> (r: Option<String>)
    ensures
        opt_view(r) == agent_name(agents@, pane@, 0),
{
    let mut i: usize = 0;
    while i < agents.len()
        invariant
            i <= agents.len(),
            agent_name(agents@, pane@, 0) == agent_name(agents@, pane@, i as int),
        decreases agents.len() - i,
    {
        if str_eq(agents[i].0.as_str(), pane) {
            if !agents[i].1.as_str().is_empty() {
                return Some(agents[i].1.clone());
            }
            return None;
        }
        i += 1;
    }
    None
}

/// Busy panes, and the name of the first busy pane's agent.
pub fn tab_activity(statuses: &[(String, String)], agents: Option<&[(String, String)]>) -> (r:
    TabActivity)
    ensures
        r.has_active_command == any_busy(statuses@),
        r.needs_close_confirmation == any_busy(statuses@),
        opt_view(r.active_command_name) == match agents {
            Some(a) => busy_command(statuses@, a@, 0),
            None => None,
        },
{
    let mut any = false;
    let mut command: Option<String> = None;
    let mut i: usize = 0;
    while i < statuses.len()
        invariant
            i <= statuses.len(),
            any == exists|j: int| 0 <= j < i && busy(statuses@[j].1@),
            match agents {
                Some(a) => match command {
                    Some(c) => busy_command(statuses@, a@, 0) == Some(c@),
                    None => busy_command(statuses@, a@, 0) == busy_command(
                        statuses@,
                        a@,
                        i as int,
                    ),
                },
                None => command is None,
            },
        decreases statuses.len() - i,
    {
        if busy_status(statuses[i].1.as_str()) {
            any = true;
            if command.is_none() {
                match agents {
                    Some(a) => {
                        command = agent_name_exec(a, statuses[i].0.as_str());
                    },
                    None => {},
                }
            }
        }
        i += 1;
    }
    TabActivity {
        has_active_command: any,
        active_command_name: command,
        needs_close_confirmation: any,
    }
}

/// What closing a pane or tab from `source` should do.
#[derive(Debug, Clone, PartialEq, Eq)]
pub struct CloseIntent {
    pub action: String,
    pub pane_id: Option<String>,
}

/// Close intent: host-side closes detach; only a user pane close ever closes a
/// provider pane, and a busy one needs confirmation first.
pub open spec fn close_intent_spec(source: Seq<char>, pane: Option<Seq<char>>, status: Option<
    Seq<char>,
>) -> (Seq<char>, Option<Seq<char>>) {
    if source == "host_tab"@ || source == "host_panel"@ || source == "detach"@ {
        ("detach"@, None)
    } else {
        match pane {
            Some(p) if p.len() > 0 => if source != "user_pane"@ {
                ("noop"@, None)
            } else {
                (
                    if status matches Some(s) && busy(s) {
                        "confirm_then_close_pane"@
                    } else {
                        "close_pane"@
                    },
                    Some(p),
                )
            },
            _ => ("noop"@, None),
        }
    }
}

pub fn close_intent(source: &str, pane_id: Option<&str>, agent_status: Option<&str>) -> (r:
    CloseIntent)
    ensures
        (r.action@, opt_view(r.pane_id)) == close_intent_spec(
            source@,
            opt_str_view(pane_id),
            opt_str_view(agent_status),
        ),
{
    if str_eq(source, "host_tab") || str_eq(source, "host_panel") || str_eq(source, "detach") {
        return CloseIntent { action: owned("detach"), pane_id: None };
    }
    let pane = match pane_id {
        Some(p) => {
            if p.is_empty() {
                return CloseIntent { action: owned("noop"), pane_id: None };
            }
            p
        },
        None => {
            return CloseIntent { action: owned("noop"), pane_id: None };
        },
    };
    if !str_eq(source, "user_pane") {
        return CloseIntent { action: owned("noop"), pane_id: None };
    }
    let is_busy = match agent_status {
        Some(s) => busy_status(s),
        None => false,
    };
    CloseIntent {
        action: owned(
            if is_busy {
                "confirm_then_close_pane"
            } else {
                "close_pane"
            },
        ),
        pane_id: Some(owned(pane)),
    }
}

/// CSI parameter bytes `0-9 ; ?`.
pub open spec fn csi_param(c: char) -> bool {
    ('0' <= c <= '9') || c == ';' || c == '?'
}

/// CSI intermediate bytes `' '..='/'`.
pub open spec fn csi_inter(c: char) -> bool {
    ' ' <= c <= '/'
}

pub open spec fn skip_params(s: Seq<char>, j: int) -> int
    decreases s.len() - j,
{
    if 0 <= j < s.len() && csi_param(s[j]) {
        skip_params(s, j + 1)
    } else {
        j
    }
}

pub open spec fn skip_inter(s: Seq<char>, j: int) -> int
    decreases s.len() - j,
{
    if 0 <= j < s.len() && csi_inter(s[j]) {
        skip_inter(s, j + 1)
    } else {
        j
    }
}

proof fn lemma_skip_params(s: Seq<char>, j: int)
    requires
        0 <= j,
    ensures
        j <= skip_params(s, j),
        j <= s.len() ==> skip_params(s, j) <= s.len(),
    decreases s.len() - j,
{
    if 0 <= j < s.len() && csi_param(s[j]) {
        lemma_skip_params(s, j + 1);
    }
}

proof fn lemma_skip_inter(s: Seq<char>, j: int)
    requires
        0 <= j,
    ensures
        j <= skip_inter(s, j),
        j <= s.len() ==> skip_inter(s, j) <= s.len(),
    decreases s.len() - j,
{
    if 0 <= j < s.len() && csi_inter(s[j]) {
        lemma_skip_inter(s, j + 1);
    }
}

/// The text of `s` from `i` on, with escape sequences removed: a complete CSI
/// sequence disappears, `ESC x` disappears, a trailing `ESC` disappears, and
/// an unterminated CSI keeps its `ESC`.
pub open spec fn strip_escapes(s: Seq<char>, i: int) -> Seq<char>
    decreases s.len() - i, 0int,
{
    if i < 0 || i >= s.len() {
        Seq::empty()
    } else if s[i] != '\x1b' {
        seq![s[i]] + strip_escapes(s, i + 1)
    } else if i + 1 >= s.len() {
        strip_escapes(s, i + 1)
    } else if s[i + 1] != '[' {
        strip_escapes(s, i + 2)
    } else {
        let cursor = skip_inter(s, skip_params(s, i + 2));
        if 0 <= cursor < s.len() && '@' <= s[cursor] <= '~' && cursor >= i + 2 {
            strip_escapes(s, cursor + 1)
        } else {
            seq!['\x1b'] + strip_escapes(s, i + 1)
        }
    }
}

fn strip_title_escapes(v: &Vec<char>) -> (r: Vec<char>)
    ensures
        r@ == strip_escapes(v@, 0),
{
    let mut out: Vec<char> = Vec::new();
    let mut index: usize = 0;
    let n = v.len();
    while index < n
        invariant
            n == v.len(),
            index <= n,
            out@ + strip_escapes(v@, index as int) == strip_escapes(v@, 0),
        decreases n - index,
    {
        if v[index] != '\x1b' {
            out.push(v[index]);
            index += 1;
            continue ;
        }
        if index + 1 >= n {
            index += 1;
            continue ;
        }
        if v[index + 1] != '[' {
            index += 2;
            continue ;
        }
        let mut cursor = index + 2;
        while cursor < n && (('0' <= v[cursor] && v[cursor] <= '9') || v[cursor] == ';' || v[cursor]
            == '?')
            invariant
                index + 2 <= cursor <= n,
                n == v.len(),
                skip_params(v@, index + 2) == skip_params(v@, cursor as int),
            decreases n - cursor,
        {
            cursor += 1;
        }
        let ghost c1 = cursor;
        while cursor < n && (' ' <= v[cursor] && v[cursor] <= '/')
            invariant
                c1 <= cursor <= n,
                n == v.len(),
                skip_params(v@, index + 2) == c1,
                skip_inter(v@, c1 as int) == skip_inter(v@, cursor as int),
            decreases n - cursor,
        {
            cursor += 1;
        }
        if cursor < n && '@' <= v[cursor] && v[cursor] <= '~' {
            index = cursor + 1;
        } else {
            out.push('\x1b');
            index += 1;
        }
    }
    out
}

/// Printable characters: the space, and everything but control, separator
/// and format characters; used to clean titles.
pub open spec fn printable(c: char) -> bool {
    let n = c as u32;
    if c == ' ' {
        true
    } else if n <= 0x1f || (0x7f <= n <= 0x9f) || is_ws(c) {
        false
    } else {
        !(n == 0xad || (0x600 <= n <= 0x605) || n == 0x61c || n == 0x6dd || n == 0x70f || (0x890
            <= n <= 0x891) || n == 0x8e2 || n == 0x180e || (0x200b <= n <= 0x200f) || (0x202a <= n
            <= 0x202e) || (0x2060 <= n <= 0x2064) || (0x2066 <= n <= 0x206f) || n == 0xfeff || (
        0xfff9 <= n <= 0xfffb) || n == 0x110bd || n == 0x110cd || (0x13430 <= n <= 0x1343f) || (
        0x1bca0 <= n <= 0x1bca3) || (0x1d173 <= n <= 0x1d17a) || n == 0xe0001 || (0xe0020 <= n
            <= 0xe007f))
    }
}

fn printable_exec(c: char) -> (r: bool)
    ensures
        r == printable(c),
{
    let n = c as u32;
    if c == ' ' {
        return true;
    }
    if n <= 0x1f || (0x7f <= n && n <= 0x9f) || crate::text::char_is_ws(c) {
        return false;
    }
    !(n == 0xad || (0x600 <= n && n <= 0x605) || n == 0x61c || n == 0x6dd || n == 0x70f || (0x890
        <= n && n <= 0x891) || n == 0x8e2 || n == 0x180e || (0x200b <= n && n <= 0x200f) || (0x202a
        <= n && n <= 0x202e) || (0x2060 <= n && n <= 0x2064) || (0x2066 <= n && n <= 0x206f) || n
        == 0xfeff || (0xfff9 <= n && n <= 0xfffb) || n == 0x110bd || n == 0x110cd || (0x13430 <= n
        && n <= 0x1343f) || (0x1bca0 <= n && n <= 0x1bca3) || (0x1d173 <= n && n <= 0x1d17a) || n
        == 0xe0001 || (0xe0020 <= n && n <= 0xe007f))
}

/// The title a session name yields: escapes stripped, unprintable characters
/// dropped, trimmed.
pub open spec fn clean_title(name: Seq<char>) -> Seq<char> {
    trim(strip_escapes(name, 0).filter(|c: char| printable(c)))
}

/// New tab title from a provider session name, or `None` to keep the current one.
pub fn apply_session_title(name: &str, current: Option<&str>, propagate_to_provider: bool) -> (r:
    Option<String>)
    ensures
        propagate_to_provider ==> r is None,
        !propagate_to_provider ==> opt_view(r) == (if clean_title(name@).len() == 0 || opt_str_view(
            current,
        ) == Some(clean_title(name@)) {
            None
        } else {
            Some(crate::text::truncate(clean_title(name@), 200))
        }),
{
    if propagate_to_provider {
        return None;
    }
    let v = chars_of(name);
    let stripped = strip_title_escapes(&v);
    let mut kept: Vec<char> = Vec::new();
    let mut i: usize = 0;
    while i < stripped.len()
        invariant
            i <= stripped.len(),
            kept@ == stripped@.subrange(0, i as int).filter(|c: char| printable(c)),
        decreases stripped.len() - i,
    {
        let c = stripped[i];
        proof {
            let pre = stripped@.subrange(0, i as int);
            assert(stripped@.subrange(0, i + 1).drop_last() =~= pre);
            reveal(Seq::filter);
        }
        if printable_exec(c) {
            kept.push(c);
        }
        i += 1;
    }
    assert(stripped@.subrange(0, stripped@.len() as int) =~= stripped@);
    let (lo, hi) = trim_bounds(&kept);
    let cleaned = if lo < hi {
        string_from(&kept, lo, hi)
    } else {
        String::new()
    };
    assert(cleaned@ == clean_title(name@));
    if cleaned.as_str().is_empty() || crate::text::opt_str_eq(current, cleaned.as_str()) {
        return None;
    }
    let cv = chars_of(cleaned.as_str());
    let take = if cv.len() < 200 {
        cv.len()
    } else {
        200
    };
    let out = string_from(&cv, 0, take);
    assert(out@ =~= crate::text::truncate(cleaned@, 200));
    Some(out)
}

} // verus!
