//! Emoji reactions: which emoji may be used, and how stored reactions are
//! grouped onto the messages they belong to.
use vstd::prelude::*;
use crate::messages::{MessageReaction, StoredMessage};
use crate::text::str_eq;

verus! {

broadcast use vstd::string::group_string_axioms;

/// The emoji a message can be reacted with: thumbs up, red heart, tears of joy,
/// open mouth, crying face and clapping hands.
pub open spec fn allowed_reaction(emoji: Seq<char>) -> bool {
    ||| emoji == "\u{1f44d}"@
    ||| emoji == "\u{2764}\u{fe0f}"@
    ||| emoji == "\u{1f602}"@
    ||| emoji == "\u{1f62e}"@
    ||| emoji == "\u{1f622}"@
    ||| emoji == "\u{1f44f}"@
}

/// Whether `emoji` is one of the six reactions offered.
pub fn reaction_allowed(emoji: &str) -> (b: bool)
    ensures
        b == allowed_reaction(emoji@),
{
    str_eq(emoji, "\u{1f44d}") || str_eq(emoji, "\u{2764}\u{fe0f}") || str_eq(emoji, "\u{1f602}")
        || str_eq(emoji, "\u{1f62e}") || str_eq(emoji, "\u{1f622}") || str_eq(emoji, "\u{1f44f}")
}

/// One stored reaction.
pub struct ReactionRow {
    pub message_id: u128,
    pub emoji: String,
    pub user_id: u128,
}

/// Reactions as (emoji, accounts) pairs.
pub open spec fn reactions_view(v: Seq<MessageReaction>) -> Seq<(Seq<char>, Seq<u128>)> {
    Seq::new(v.len(), |i: int| (v[i].emoji@, v[i].user_ids@))
}

/// Index of the first group for `emoji`, or -1.
pub open spec fn group_index(groups: Seq<(Seq<char>, Seq<u128>)>, emoji: Seq<char>) -> int
    decreases groups.len(),
{
    if groups.len() == 0 {
        -1
    } else if groups.last().0 == emoji && group_index(groups.drop_last(), emoji) < 0 {
        groups.len() - 1
    } else {
        group_index(groups.drop_last(), emoji)
    }
}

/// Adds one account's reaction: to the group of its emoji when there is one,
/// else as a new group at the end.
pub open spec fn add_reaction(groups: Seq<(Seq<char>, Seq<u128>)>, emoji: Seq<char>, user: u128) -> Seq<(Seq<char>, Seq<u128>)> {
    let k = group_index(groups, emoji);
    if k < 0 {
        groups.push((emoji, seq![user]))
    } else {
        groups.update(k, (emoji, groups[k].1.push(user)))
    }
}

/// The reactions of one message, grouped by emoji in the order the rows come:
/// groups in order of their first reaction, accounts in row order.
pub open spec fn grouped_reactions(rows: Seq<ReactionRow>, id: u128) -> Seq<(Seq<char>, Seq<u128>)>
    decreases rows.len(),
{
    if rows.len() == 0 {
        Seq::empty()
    } else {
        let g = grouped_reactions(rows.drop_last(), id);
        if rows.last().message_id == id {
            add_reaction(g, rows.last().emoji@, rows.last().user_id)
        } else {
            g
        }
    }
}

proof fn lemma_group_index_bounds(groups: Seq<(Seq<char>, Seq<u128>)>, emoji: Seq<char>)
    ensures
        -1 <= group_index(groups, emoji) < groups.len(),
        group_index(groups, emoji) >= 0 ==> groups[group_index(groups, emoji)].0 == emoji,
        forall|i: int|
            0 <= i < groups.len() && groups[i].0 == emoji ==> group_index(groups, emoji) >= 0
                && group_index(groups, emoji) <= i,
    decreases groups.len(),
{
    if groups.len() > 0 {
        let init = groups.drop_last();
        lemma_group_index_bounds(init, emoji);
        assert forall|i: int|
            0 <= i < groups.len() && groups[i].0 == emoji implies group_index(groups, emoji) >= 0
                && group_index(groups, emoji) <= i by {
            if i < groups.len() - 1 {
                assert(init[i] == groups[i]);
            }
        }
    }
}

fn find_group(groups: &Vec<MessageReaction>, emoji: &String) -> (r: Option<usize>)
    ensures
        r matches Some(k) ==> k < groups@.len(),
        match r {
            Some(k) => k == group_index(reactions_view(groups@), emoji@),
            None => group_index(reactions_view(groups@), emoji@) < 0,
        },
{
    let ghost g = reactions_view(groups@);
    proof {
        lemma_group_index_bounds(g, emoji@);
    }
    let mut k: usize = 0;
    while k < groups.len()
        invariant
            k <= groups.len(),
            g == reactions_view(groups@),
            forall|i: int| 0 <= i < k ==> g[i].0 != emoji@,
            -1 <= group_index(g, emoji@) < g.len(),
            group_index(g, emoji@) >= 0 ==> g[group_index(g, emoji@)].0 == emoji@,
            forall|i: int|
                0 <= i < g.len() && g[i].0 == emoji@ ==> group_index(g, emoji@) >= 0 && group_index(
                    g,
                    emoji@,
                ) <= i,
        decreases groups.len() - k,
    {
        if groups[k].emoji == *emoji {
            assert(g[k as int].0 == emoji@);
            return Some(k);
        }
        k += 1;
    }
    None
}

/// The grouped reactions of message `id`.
pub fn reactions_for(rows: &Vec<ReactionRow>, id: u128) -> (r: Vec<MessageReaction>)
    ensures
        reactions_view(r@) == grouped_reactions(rows@, id),
{
    let mut groups: Vec<MessageReaction> = Vec::new();
    let mut j: usize = 0;
    while j < rows.len()
        invariant
            j <= rows.len(),
            reactions_view(groups@) == grouped_reactions(rows@.subrange(0, j as int), id),
        decreases rows.len() - j,
    {
        let ghost before = reactions_view(groups@);
        assert(rows@.subrange(0, j + 1).drop_last() =~= rows@.subrange(0, j as int));
        if rows[j].message_id == id {
            let user = rows[j].user_id;
            match find_group(&groups, &rows[j].emoji) {
                Some(k) => {
                    let ghost old_groups = groups@;
                    proof {
                        lemma_group_index_bounds(before, rows@[j as int].emoji@);
                    }
                    let mut g = groups.remove(k);
                    g.user_ids.push(user);
                    let ghost g_new = g;
                    groups.insert(k, g);
                    assert(groups@ =~= old_groups.update(k as int, g_new));
                    assert(before[k as int].0 == rows@[j as int].emoji@);
                    assert(reactions_view(groups@) =~= add_reaction(before, rows@[j as int].emoji@, user));
                },
                None => {
                    let emoji = rows[j].emoji.clone();
                    let mut users: Vec<u128> = Vec::new();
                    users.push(user);
                    groups.push(MessageReaction { emoji, user_ids: users });
                    assert(reactions_view(groups@) =~= add_reaction(before, rows@[j as int].emoji@, user));
                },
            }
        }
        j += 1;
    }
    assert(rows@.subrange(0, rows.len() as int) =~= rows@);
    groups
}

/// Number of accounts over all groups.
pub open spec fn total_accounts(groups: Seq<(Seq<char>, Seq<u128>)>) -> int
    decreases groups.len(),
{
    if groups.len() == 0 {
        0
    } else {
        total_accounts(groups.drop_last()) + groups.last().1.len()
    }
}

/// Number of rows that belong to message `id`.
pub open spec fn rows_of(rows: Seq<ReactionRow>, id: u128) -> int
    decreases rows.len(),
{
    if rows.len() == 0 {
        0
    } else {
        rows_of(rows.drop_last(), id) + if rows.last().message_id == id {
            1int
        } else {
            0int
        }
    }
}

/// No two groups share an emoji, and every group has an account.
pub open spec fn well_grouped(groups: Seq<(Seq<char>, Seq<u128>)>) -> bool {
    &&& forall|i: int, j: int| 0 <= i < j < groups.len() ==> groups[i].0 != groups[j].0
    &&& forall|i: int| 0 <= i < groups.len() ==> groups[i].1.len() > 0
}

proof fn lemma_total_update(groups: Seq<(Seq<char>, Seq<u128>)>, k: int, g: (Seq<char>, Seq<u128>))
    requires
        0 <= k < groups.len(),
        g.1.len() == groups[k].1.len() + 1,
    ensures
        total_accounts(groups.update(k, g)) == total_accounts(groups) + 1,
    decreases groups.len(),
{
    let u = groups.update(k, g);
    if k == groups.len() - 1 {
        assert(u.drop_last() =~= groups.drop_last());
    } else {
        lemma_total_update(groups.drop_last(), k, g);
        assert(u.drop_last() =~= groups.drop_last().update(k, g));
    }
}

/// Grouping keeps every reaction of a message exactly once: the groups have
/// distinct emoji, none is empty, and together they hold one account per row
/// of the message.
pub proof fn law_grouping_keeps_every_reaction(rows: Seq<ReactionRow>, id: u128)
    ensures
        well_grouped(grouped_reactions(rows, id)),
        total_accounts(grouped_reactions(rows, id)) == rows_of(rows, id),
    decreases rows.len(),
{
    if rows.len() > 0 {
        let init = rows.drop_last();
        law_grouping_keeps_every_reaction(init, id);
        let g = grouped_reactions(init, id);
        let r = rows.last();
        if r.message_id == id {
            lemma_group_index_bounds(g, r.emoji@);
            let k = group_index(g, r.emoji@);
            if k < 0 {
                let n = g.push((r.emoji@, seq![r.user_id]));
                assert(n.drop_last() =~= g);
                assert forall|i: int, j: int| 0 <= i < j < n.len() implies n[i].0 != n[j].0 by {
                    if j == n.len() - 1 {
                        assert(n[i] == g[i]);
                    } else {
                        assert(n[i] == g[i] && n[j] == g[j]);
                    }
                }
            } else {
                lemma_total_update(g, k, (r.emoji@, g[k].1.push(r.user_id)));
            }
        }
    }
}

/// Whether a message with the same id comes earlier in the list.
pub open spec fn id_seen_before(messages: Seq<StoredMessage>, i: int) -> bool {
    exists|j: int| 0 <= j < i && messages[j].id == messages[i].id
}

/// Gives each message its grouped reactions. A message id that occurs twice in
/// the list gets its reactions on the first occurrence only; every other field
/// is kept.
pub fn attach_message_reactions(messages: Vec<StoredMessage>, rows: &Vec<ReactionRow>) -> (r: Vec<StoredMessage>)
    ensures
        r@.len() == messages@.len(),
        forall|i: int|
            0 <= i < r@.len() ==> {
                &&& (#[trigger] r@[i]).id == messages@[i].id
                &&& r@[i].client_message_id == messages@[i].client_message_id
                &&& r@[i].room_id == messages@[i].room_id
                &&& r@[i].sender_id == messages@[i].sender_id
                &&& r@[i].sender == messages@[i].sender
                &&& r@[i].sender_avatar == messages@[i].sender_avatar
                &&& r@[i].content == messages@[i].content
                &&& r@[i].attachment == messages@[i].attachment
                &&& r@[i].reply_to == messages@[i].reply_to
                &&& r@[i].recalled_at == messages@[i].recalled_at
                &&& r@[i].edited_at == messages@[i].edited_at
                &&& r@[i].created_at == messages@[i].created_at
                &&& r@[i].forwarded_from == messages@[i].forwarded_from
                &&& reactions_view(r@[i].reactions@) == if id_seen_before(messages@, i) {
                    Seq::empty()
                } else {
                    grouped_reactions(rows@, messages@[i].id)
                }
            },
{
    let ghost all = messages@;
    let mut rest = messages;
    let mut out: Vec<StoredMessage> = Vec::new();
    let mut seen: Vec<u128> = Vec::new();
    let n = rest.len();
    let mut i: usize = 0;
    while i < n
        invariant
            n == all.len(),
            i <= n,
            rest@ == all.subrange(i as int, n as int),
            out@.len() == i,
            seen@.len() == i,
            forall|k: int| 0 <= k < i ==> seen@[k] == all[k].id,
            forall|k: int|
                0 <= k < i ==> {
                    &&& (#[trigger] out@[k]).id == all[k].id
                    &&& out@[k].client_message_id == all[k].client_message_id
                    &&& out@[k].room_id == all[k].room_id
                    &&& out@[k].sender_id == all[k].sender_id
                    &&& out@[k].sender == all[k].sender
                    &&& out@[k].sender_avatar == all[k].sender_avatar
                    &&& out@[k].content == all[k].content
                    &&& out@[k].attachment == all[k].attachment
                    &&& out@[k].reply_to == all[k].reply_to
                    &&& out@[k].recalled_at == all[k].recalled_at
                    &&& out@[k].edited_at == all[k].edited_at
                    &&& out@[k].created_at == all[k].created_at
                    &&& out@[k].forwarded_from == all[k].forwarded_from
                    &&& reactions_view(out@[k].reactions@) == if id_seen_before(all, k) {
                        Seq::empty()
                    } else {
                        grouped_reactions(rows@, all[k].id)
                    }
                },
        decreases n - i,
    {
        let m = rest.remove(0);
        assert(m == all[i as int]);
        let mut dup = false;
        let mut k: usize = 0;
        while k < i
            invariant
                k <= i,
                seen@.len() == i,
                dup <==> exists|j: int| 0 <= j < k && seen@[j] == m.id,
            decreases i - k,
        {
            if seen[k] == m.id {
                dup = true;
            }
            k += 1;
        }
        assert(dup <==> id_seen_before(all, i as int)) by {
            if dup {
                let j = choose|j: int| 0 <= j < i && seen@[j] == m.id;
                assert(all[j].id == all[i as int].id);
            }
            if id_seen_before(all, i as int) {
                let j = choose|j: int| 0 <= j < i && all[j].id == all[i as int].id;
                assert(seen@[j] == m.id);
            }
        }
        let reactions = if dup {
            Vec::new()
        } else {
            reactions_for(rows, m.id)
        };
        proof {
            if dup {
                assert(reactions_view(reactions@) =~= Seq::empty());
            }
        }
        seen.push(m.id);
        out.push(
            StoredMessage {
                id: m.id,
                client_message_id: m.client_message_id,
                room_id: m.room_id,
                sender_id: m.sender_id,
                sender: m.sender,
                sender_avatar: m.sender_avatar,
                content: m.content,
                attachment: m.attachment,
                reply_to: m.reply_to,
                recalled_at: m.recalled_at,
                edited_at: m.edited_at,
                created_at: m.created_at,
                forwarded_from: m.forwarded_from,
                reactions,
            },
        );
        i += 1;
        assert(rest@ =~= all.subrange(i as int, n as int));
    }
    out
}

} // verus!
