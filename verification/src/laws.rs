//! The laws the registry and the exchange keep, each proved from the
//! contracts the operations state.

use vstd::prelude::*;
use crate::chat::{filter_ai, is_outbound, outbound_views, CompletionView};
use crate::managers::{chat_after_push, ChatView, RegistryView};

verus! {

/// Sessions are keyed by identifier in a map, so whatever sequence of
/// creations ran, a registry never holds two sessions under one identifier:
/// two sessions found under the same identifier are the same session.
pub proof fn lemma_identifier_unique(r: RegistryView, id: u128, c1: ChatView, c2: ChatView)
    requires
        r.chats.contains_key(id),
        c1 == r.chats[id],
        c2 == r.chats[id],
    ensures
        c1 == c2,
{
}

/// After a removal (remove_chat's success contract), the removed identifier
/// is absent from the registry.
pub proof fn lemma_remove_then_absent(pre: RegistryView, post: RegistryView, id: u128)
    requires
        post.chats == pre.chats.remove(id),
    ensures
        !post.chats.contains_key(id),
{
}

/// First writer wins for the current-session marker. A session created on a
/// registry with no current session (create_new_chat's contract with the
/// marker unset) becomes current and is found under the marker; one created
/// while a current session is set leaves the marker unchanged.
pub proof fn lemma_first_create_wins(pre: RegistryView, post: RegistryView, id: u128, c: ChatView)
    requires
        id != 0,
        post.chats == pre.chats.insert(id, c),
        post.current == if pre.current == 0 {
            id
        } else {
            pre.current
        },
    ensures
        pre.current == 0 ==> post.current == id && post.chats.contains_key(post.current)
            && post.chats[post.current] == c,
        pre.current != 0 ==> post.current == pre.current,
{
}

/// Removing the current session (remove_chat's contract when the marker names
/// the removed identifier) unsets the marker and leaves the identifier
/// absent, so a current-session lookup then finds nothing.
pub proof fn lemma_remove_current_unsets(pre: RegistryView, post: RegistryView, id: u128)
    requires
        pre.current == id,
        post.chats == pre.chats.remove(id),
        post.current == if pre.current == id {
            0u128
        } else {
            pre.current
        },
    ensures
        post.current == 0,
        !post.chats.contains_key(id),
{
}

/// One exchange with history enabled grows the history by exactly two turns,
/// whether the exchange succeeded or failed: position 0 holds the
/// reply-shaped turn (the AI reply on success, the fixed error turn on
/// failure), position 1 the submitted turn, and the earlier turns follow
/// unchanged.
pub proof fn lemma_exchange_history(
    c0: ChatView,
    c1: ChatView,
    c2: ChatView,
    user: CompletionView,
    reply: CompletionView,
    h0: Seq<CompletionView>,
)
    requires
        c0.history == Option::Some(h0),
        c1 == chat_after_push(c0, user),
        c2 == chat_after_push(c1, reply),
    ensures
        c2.history is Some,
        c2.history->Some_0.len() == h0.len() + 2,
        c2.history->Some_0[0] == reply,
        c2.history->Some_0[1] == user,
        c2.history->Some_0.skip(2) == h0,
{
    assert((seq![reply] + (seq![user] + h0)).skip(2) =~= h0);
}

/// An outbound transcript is the submitted-plus-history transcript with every
/// AI-authored turn removed: it carries no AI turn, and every non-AI turn of
/// that transcript is carried, in the same relative order (it is the filter
/// of that transcript).
pub proof fn lemma_outbound_excludes_ai(m: CompletionView, h: Seq<CompletionView>)
    ensures
        outbound_views(m, Option::Some(h)) == filter_ai(seq![m] + h),
        forall|i: int|
            0 <= i < filter_ai(seq![m] + h).len() ==> is_outbound(
                #[trigger] filter_ai(seq![m] + h)[i],
            ),
        forall|i: int|
            0 <= i < (seq![m] + h).len() && is_outbound(#[trigger] (seq![m] + h)[i]) ==> filter_ai(
                seq![m] + h,
            ).contains((seq![m] + h)[i]),
{
    broadcast use vstd::seq_lib::group_filter_ensures;

}

} // verus!
