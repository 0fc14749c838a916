//! Rendering of the leaderboard as a standalone HTML page.

use vstd::prelude::*;
use crate::models::leaderboard::{LeaderboardEntry, LeaderboardStats, SortBy};
use crate::text::{dec, dec_int, push_i64, push_str, push_u64};

verus! {
pub const HEAD_0: &'static str = r#"<!DOCTYPE html>
<html lang="en">
<head>
    <meta charset="UTF-8">
    <meta name="viewport" content="width=device-width, initial-scale=1.0">
    <title>Remilia Leaderboard</title>
    <link rel="stylesheet" href="https://cdnjs.cloudflare.com/ajax/libs/font-awesome/6.4.0/css/all.min.css">
    <style>
        * {
            margin: 0;
            padding: 0;
            box-sizing: border-box;
        }
        
        body {
            font-family: -apple-system, BlinkMacSystemFont, 'Segoe UI', Roboto, Oxygen, Ubuntu, Cantarell, sans-serif;
            background: linear-gradient(135deg, #0f0f1e 0%, #1a1a2e 100%);
            color: #ffffff;
            padding: 2rem;
            min-height: 100vh;
        }
        
        .container {
            max-width: 1400px;
            margin: 0 auto;
        }
        
        h1 {
            text-align: center;
            font-size: 3rem;
            margin-bottom: 1rem;
            background: linear-gradient(135deg, #667eea 0%, #764ba2 100%);
            -webkit-background-clip: text;
            -webkit-text-fill-color: transparent;
            background-clip: text;
        }
        
        .stats-summary {
            text-align: center;
            color: #6e7787;
            margin-bottom: 2rem;
            font-size: 1.1rem;
        }
        
        .overflow-x-auto {
            overflow-x: auto;
            border: 1px solid #243147;
            border-radius: 0.5rem;
        }
        
        table {
            min-width: 100%;
            overflow: hidden;
            table-layout: fixed;
        }
        
        thead tr {
            border-bottom: 1px solid #20242b;
            background: linear-gradient(to bottom, #22252c 0%, #16171b 100%);
        }
        
        th {
            padding: 0.75rem 1.5rem;
            text-align: left;
            font-size: 0.75rem;
            font-weight: 500;
            color: #6e7787;
            text-transform: uppercase;
            letter-spacing: 0.05em;
        }
        
        th button {
            display: flex;
            align-items: center;
            gap: 0.5rem;
            color: #6e7787;
            background: none;
            border: none;
            cursor: pointer;
            transition: color 0.3s;
            font-family: inherit;
            font-size: inherit;
            font-weight: inherit;
            text-transform: inherit;
            letter-spacing: inherit;
        }
        
        th button:hover {
            color: white;
        }
        
        th button i {
            font-size: 0.75rem;
            vertical-align: middle;
        }
        
        th button i.active {
            color: white;
        }
        
        tbody {
            background: #16171b;
        }
        
        tbody tr {
            border-bottom: 1px solid #20242b;
            transition: background-color 0.2s;
        }
        
        tbody tr:hover {
            background-color: #1e1f24;
        }
        
        td {
            padding: 1rem 1.5rem;
            color: #e6edf3;
        }
        
        .rank {
            font-weight: 700;
            font-size: 1.1rem;
        }
        
        .rank.top-1 {
            color: #ffd700;
        }
        
        .rank.top-2 {
            color: #c0c0c0;
        }
        
        .rank.top-3 {
            color: #cd7f32;
        }
        
        .user-cell {
            display: flex;
            align-items: center;
            gap: 0.75rem;
        }
        
        .user-avatar {
            width: 40px;
            height: 40px;
            border-radius: 50%;
            object-fit: cover;
            border: 2px solid #243147;
        }
        
        .user-info {
            display: flex;
            flex-direction: column;
        }
        
        .user-name {
            font-weight: 600;
            color: #e6edf3;
        }
        
        .user-username {
            font-size: 0.875rem;
            color: #6e7787;
        }
        
        .stat-value {
            font-weight: 600;
            font-size: 1.05rem;
        }
        
        .empty-state {
            padding: 3rem;
            text-align: center;
            color: #6e7787;
        }
        
        .w-1-6 { width: 16.666%; }
        .w-1-3 { width: 33.333%; }
    </style>
</head>
<body>
    <div class="container">
        <h1>🏆 Remilia Leaderboard</h1>
        <div class="stats-summary">
            "#;
pub const SUMMARY_LEAD: &'static str = "Total Users: ";
pub const HEAD_1: &'static str = r#" | Sorted by: "#;
pub const HEAD_2: &'static str = r#"
        </div>
        <div class="overflow-x-auto">
            <table>
                <thead>
                    <tr>
                        <th class="w-1-6">
                            <button>
                                RANK
                                <i class="fa-regular fa-angle-down"></i>
                            </button>
                        </th>
                        <th class="w-1-3">
                            <button>
                                USER
                                <i class="fa-regular fa-angle-down"></i>
                            </button>
                        </th>
                        <th class="w-1-6">
                            <button onclick="sortTable('beetles')">
                                BEETLES
                                <i id="beetles-icon" class="fa-regular fa-angle-down"#;
pub const HEAD_3: &'static str = r#""></i>
                            </button>
                        </th>
                        <th class="w-1-6">
                            <button onclick="sortTable('pokes')">
                                POKES
                                <i id="pokes-icon" class="fa-regular fa-angle-down"#;
pub const HEAD_4: &'static str = r#""></i>
                            </button>
                        </th>
                        <th class="w-1-6">
                            <button onclick="sortTable('social')">
                                SOCIAL CREDIT
                                <i id="social-icon" class="fa-regular fa-angle-down"#;
pub const HEAD_5: &'static str = r#""></i>
                            </button>
                        </th>
                    </tr>
                </thead>
                <tbody id="leaderboard-body">
"#;
pub const ROW_0: &'static str = r#"                    <tr data-beetles=""#;
pub const ROW_1: &'static str = r#"" data-pokes=""#;
pub const ROW_2: &'static str = r#"" data-social=""#;
pub const ROW_3: &'static str = r#"">
                        <td class=""#;
pub const ROW_4: &'static str = r#"">"#;
pub const ROW_5: &'static str = r#"</td>
                        <td>
                            <div class="user-cell">
                                <img src=""#;
pub const ROW_6: &'static str = r#"" alt=""#;
pub const ROW_7: &'static str = r#"" class="user-avatar">
                                <div class="user-info">
                                    <span class="user-name">"#;
pub const ROW_8: &'static str = r#"</span>
                                    <span class="user-username">@"#;
pub const ROW_9: &'static str = r#"</span>
                                </div>
                            </div>
                        </td>
                        <td class="stat-value">"#;
pub const ROW_10: &'static str = r#"</td>
                        <td class="stat-value">"#;
pub const ROW_11: &'static str = r#"</td>
                        <td class="stat-value">"#;
pub const ROW_12: &'static str = r#"</td>
                    </tr>
"#;
pub const EMPTY_ROWS: &'static str = r#"                    <tr>
                        <td colspan="5" class="empty-state">No users found</td>
                    </tr>
"#;
pub const FOOT: &'static str = r#"                </tbody>
            </table>
        </div>
    </div>
    
    <script>
        let currentSort = '';
        let ascending = false;
        
        function sortTable(column) {
            const tbody = document.getElementById('leaderboard-body');
            const rows = Array.from(tbody.querySelectorAll('tr'));
            
            // Toggle sort direction if clicking same column
            if (currentSort === column) {
                ascending = !ascending;
            } else {
                ascending = false;
                currentSort = column;
            }
            
            // Sort rows
            rows.sort((a, b) => {
                const aVal = parseInt(a.getAttribute('data-' + column));
                const bVal = parseInt(b.getAttribute('data-' + column));
                return ascending ? aVal - bVal : bVal - aVal;
            });
            
            // Update rank classes and numbers
            rows.forEach((row, idx) => {
                const rank = idx + 1;
                const rankCell = row.querySelector('td:first-child');
                
                // Update rank class
                if (rank === 1) {
                    rankCell.className = 'rank top-1';
                } else if (rank === 2) {
                    rankCell.className = 'rank top-2';
                } else if (rank === 3) {
                    rankCell.className = 'rank top-3';
                } else {
                    rankCell.className = 'rank';
                }
                
                // Update rank number
                rankCell.textContent = rank;
                
                // Reinsert row
                tbody.appendChild(row);
            });
            
            // Update icons
            ['beetles', 'pokes', 'social'].forEach(col => {
                const icon = document.getElementById(col + '-icon');
                if (col === column) {
                    icon.className = 'fa-regular fa-angle-' + (ascending ? 'up' : 'down') + ' active';
                } else {
                    icon.className = 'fa-regular fa-angle-down';
                }
            });
        }
    </script>
</body>
</html>
"#;
pub const LABEL_BEETLES: &'static str = "Beetles";
pub const LABEL_POKES: &'static str = "Pokes";
pub const LABEL_SOCIAL: &'static str = "Social Credit";
pub const ACTIVE: &'static str = " active";
pub const RANK_TOP_1: &'static str = "rank top-1";
pub const RANK_TOP_2: &'static str = "rank top-2";
pub const RANK_TOP_3: &'static str = "rank top-3";
pub const RANK_PLAIN: &'static str = "rank";
pub const AVATAR_PLACEHOLDER: &'static str = "https://via.placeholder.com/40";

/// The name of the sort criterion shown in the page's summary line.
pub open spec fn sort_label(by: SortBy) -> Seq<char> {
    match by {
        SortBy::Beetles => LABEL_BEETLES@,
        SortBy::Pokes => LABEL_POKES@,
        SortBy::SocialCredit => LABEL_SOCIAL@,
    }
}

/// The marker appended to the icon class of the active column.
pub open spec fn active_mark(on: bool) -> Seq<char> {
    if on { ACTIVE@ } else { Seq::<char>::empty() }
}

/// The page's summary line: `Total Users: {n} | Sorted by: {criterion}`.
pub open spec fn summary_line(total_users: nat, by: SortBy) -> Seq<char> {
    SUMMARY_LEAD@ + dec(total_users) + HEAD_1@ + sort_label(by)
}

/// Everything before the table rows: the page head with the user count, the
/// criterion and the active column filled in.
pub open spec fn page_head(total_users: nat, by: SortBy) -> Seq<char> {
    HEAD_0@ + summary_line(total_users, by) + HEAD_2@ + active_mark(
        by is Beetles,
    ) + HEAD_3@ + active_mark(by is Pokes) + HEAD_4@ + active_mark(by is SocialCredit) + HEAD_5@
}

/// The CSS class of the rank cell: the first three places are highlighted.
pub open spec fn rank_class(rank: nat) -> Seq<char> {
    if rank == 1 {
        RANK_TOP_1@
    } else if rank == 2 {
        RANK_TOP_2@
    } else if rank == 3 {
        RANK_TOP_3@
    } else {
        RANK_PLAIN@
    }
}

/// The avatar URL of an entry, or a placeholder image when it has none.
pub open spec fn avatar_url(e: LeaderboardEntry) -> Seq<char> {
    match e.pfp_url {
        Some(u) => u@,
        None => AVATAR_PLACEHOLDER@,
    }
}

/// The opening of a row: the data attributes used by the page's sorting script.
pub open spec fn row_data(e: LeaderboardEntry) -> Seq<char> {
    ROW_0@ + dec(e.beetles as nat) + ROW_1@ + dec(e.pokes as nat) + ROW_2@ + dec_int(
        e.social_credit as int,
    ) + ROW_3@
}

/// The rank cell of a row.
pub open spec fn row_rank(rank: nat) -> Seq<char> {
    rank_class(rank) + ROW_4@ + dec(rank) + ROW_5@
}

/// The user cell of a row: avatar, display name and `@username`.
pub open spec fn row_user(e: LeaderboardEntry) -> Seq<char> {
    avatar_url(e) + ROW_6@ + e.username@ + ROW_7@ + e.display_name@ + ROW_8@ + e.username@
        + ROW_9@
}

/// The three statistic cells of a row and its end.
pub open spec fn row_stats(e: LeaderboardEntry) -> Seq<char> {
    dec(e.beetles as nat) + ROW_10@ + dec(e.pokes as nat) + ROW_11@ + dec_int(
        e.social_credit as int,
    ) + ROW_12@
}

/// The table row of the entry at position `rank` (counted from one).
pub open spec fn row_text(rank: nat, e: LeaderboardEntry) -> Seq<char> {
    row_data(e) + row_rank(rank) + row_user(e) + row_stats(e)
}

/// The rows of all entries, ranked in the order given.
pub open spec fn rows_text(entries: Seq<LeaderboardEntry>) -> Seq<char>
    decreases entries.len(),
{
    if entries.len() == 0 {
        Seq::<char>::empty()
    } else {
        rows_text(entries.drop_last()) + row_text(entries.len(), entries.last())
    }
}

/// The whole page for the given user count, entries and criterion.
pub open spec fn leaderboard_html(total_users: nat, entries: Seq<LeaderboardEntry>, by: SortBy) -> Seq<char> {
    page_head(total_users, by) + (if entries.len() == 0 {
        EMPTY_ROWS@
    } else {
        rows_text(entries)
    }) + FOOT@
}

pub struct HtmlGenerator;

fn push_row_data(html: &mut String, e: &LeaderboardEntry)
    ensures
        final(html)@ == old(html)@ + row_data(*e),
{
    let ghost start = html@;
    push_str(html, ROW_0);
    push_u64(html, e.beetles as u64);
    push_str(html, ROW_1);
    push_u64(html, e.pokes as u64);
    push_str(html, ROW_2);
    push_i64(html, e.social_credit);
    push_str(html, ROW_3);
    assert(html@ =~= start + row_data(*e));
}

fn push_row_rank(html: &mut String, rank: usize)
    ensures
        final(html)@ == old(html)@ + row_rank(rank as nat),
{
    let ghost start = html@;
    if rank == 1 {
        push_str(html, RANK_TOP_1);
    } else if rank == 2 {
        push_str(html, RANK_TOP_2);
    } else if rank == 3 {
        push_str(html, RANK_TOP_3);
    } else {
        push_str(html, RANK_PLAIN);
    }
    push_str(html, ROW_4);
    push_u64(html, rank as u64);
    push_str(html, ROW_5);
    assert(html@ =~= start + row_rank(rank as nat));
}

fn push_row_user(html: &mut String, e: &LeaderboardEntry)
    ensures
        final(html)@ == old(html)@ + row_user(*e),
{
    let ghost start = html@;
    match &e.pfp_url {
        Some(u) => push_str(html, u.as_str()),
        None => push_str(html, AVATAR_PLACEHOLDER),
    }
    push_str(html, ROW_6);
    push_str(html, e.username.as_str());
    push_str(html, ROW_7);
    push_str(html, e.display_name.as_str());
    push_str(html, ROW_8);
    push_str(html, e.username.as_str());
    push_str(html, ROW_9);
    assert(html@ =~= start + row_user(*e));
}

fn push_row_stats(html: &mut String, e: &LeaderboardEntry)
    ensures
        final(html)@ == old(html)@ + row_stats(*e),
{
    let ghost start = html@;
    push_u64(html, e.beetles as u64);
    push_str(html, ROW_10);
    push_u64(html, e.pokes as u64);
    push_str(html, ROW_11);
    push_i64(html, e.social_credit);
    push_str(html, ROW_12);
    assert(html@ =~= start + row_stats(*e));
}

fn push_row(html: &mut String, rank: usize, e: &LeaderboardEntry)
    ensures
        final(html)@ == old(html)@ + row_text(rank as nat, *e),
{
    let ghost start = html@;
    push_row_data(html, e);
    push_row_rank(html, rank);
    push_row_user(html, e);
    push_row_stats(html, e);
    assert(html@ =~= start + row_text(rank as nat, *e));
}

impl HtmlGenerator {
    /// Renders the leaderboard page: the head with the user count and sort
    /// criterion, one row per entry in the order given (or a "No users found"
    /// row when there are none), and the page's script.
    pub fn generate_html(stats: &LeaderboardStats, sort_by: SortBy) -> (html: String)
        ensures
            html@ == leaderboard_html(stats.total_users as nat, stats.entries@, sort_by),
    {
        let mut html = String::new();
        push_str(&mut html, HEAD_0);
        push_str(&mut html, SUMMARY_LEAD);
        push_u64(&mut html, stats.total_users as u64);
        push_str(&mut html, HEAD_1);
        match sort_by {
            SortBy::Beetles => push_str(&mut html, LABEL_BEETLES),
            SortBy::Pokes => push_str(&mut html, LABEL_POKES),
            SortBy::SocialCredit => push_str(&mut html, LABEL_SOCIAL),
        }
        push_str(&mut html, HEAD_2);
        if matches!(sort_by, SortBy::Beetles) {
            push_str(&mut html, ACTIVE);
        }
        push_str(&mut html, HEAD_3);
        if matches!(sort_by, SortBy::Pokes) {
            push_str(&mut html, ACTIVE);
        }
        push_str(&mut html, HEAD_4);
        if matches!(sort_by, SortBy::SocialCredit) {
            push_str(&mut html, ACTIVE);
        }
        push_str(&mut html, HEAD_5);
        let ghost head = html@;
        assert(head =~= page_head(stats.total_users as nat, sort_by));
        let n = stats.entries.len();
        if n == 0 {
            push_str(&mut html, EMPTY_ROWS);
        } else {
            let mut i: usize = 0;
            while i < n
                invariant
                    n == stats.entries@.len(),
                    i <= n,
                    html@ == head + rows_text(stats.entries@.subrange(0, i as int)),
                decreases n - i,
            {
                let ghost before = html@;
                push_row(&mut html, i + 1, &stats.entries[i]);
                proof {
                    let s = stats.entries@.subrange(0, (i + 1) as int);
                    assert(s.drop_last() == stats.entries@.subrange(0, i as int));
                    assert(s.last() == stats.entries@[i as int]);
                    assert(rows_text(s) == rows_text(s.drop_last()) + row_text(s.len(), s.last()));
                    assert(html@ =~= head + rows_text(s));
                }
                i = i + 1;
            }
            assert(stats.entries@.subrange(0, n as int) == stats.entries@);
        }
        push_str(&mut html, FOOT);
        html
    }
}

/// The rendered page shows the summary line `Total Users: {n} | Sorted by:
/// {criterion}` right after its opening part, and the icon of exactly the
/// sorted column is marked active.
pub proof fn law_page_shows_the_summary(total_users: nat, entries: Seq<LeaderboardEntry>, by: SortBy)
    ensures
        ({
            let page = leaderboard_html(total_users, entries, by);
            let start = HEAD_0@.len() as int;
            let line = summary_line(total_users, by);
            &&& page.subrange(start, start + line.len()) == line
            &&& page.subrange(start + line.len(), start + line.len() + HEAD_2@.len()) == HEAD_2@
            &&& page_head(total_users, by) == HEAD_0@ + line + HEAD_2@ + active_mark(by is Beetles)
                + HEAD_3@ + active_mark(by is Pokes) + HEAD_4@ + active_mark(by is SocialCredit) + HEAD_5@
            &&& (by is Beetles) as int + (by is Pokes) as int + (by is SocialCredit) as int == 1
        }),
{
    let page = leaderboard_html(total_users, entries, by);
    let start = HEAD_0@.len() as int;
    let line = summary_line(total_users, by);
    let head = page_head(total_users, by);
    assert(page.subrange(0, head.len() as int) =~= head);
    assert(page.subrange(start, start + line.len()) =~= head.subrange(start, start + line.len()));
    assert(head.subrange(start, start + line.len()) =~= line);
    assert(page.subrange(start + line.len(), start + line.len() + HEAD_2@.len())
        =~= head.subrange(start + line.len(), start + line.len() + HEAD_2@.len()));
    assert(head.subrange(start + line.len(), start + line.len() + HEAD_2@.len()) =~= HEAD_2@);
}

/// Each table row carries the entry's beetles, pokes and social credit in
/// its `data-` attributes and shows the same three numbers, in that order,
/// in its last three cells: under the Beetles, Pokes and Social Credit
/// columns.
pub proof fn law_row_shows_the_entry(rank: nat, e: LeaderboardEntry)
    ensures
        ({
            let row = row_text(rank, e);
            let attrs = ROW_0@ + dec(e.beetles as nat) + ROW_1@ + dec(e.pokes as nat) + ROW_2@
                + dec_int(e.social_credit as int) + ROW_3@;
            let cells = dec(e.beetles as nat) + ROW_10@ + dec(e.pokes as nat) + ROW_11@
                + dec_int(e.social_credit as int) + ROW_12@;
            &&& attrs.len() + cells.len() <= row.len()
            &&& row.take(attrs.len() as int) == attrs
            &&& row.skip(row.len() - cells.len()) == cells
        }),
{
    let row = row_text(rank, e);
    let attrs = ROW_0@ + dec(e.beetles as nat) + ROW_1@ + dec(e.pokes as nat) + ROW_2@
        + dec_int(e.social_credit as int) + ROW_3@;
    let cells = dec(e.beetles as nat) + ROW_10@ + dec(e.pokes as nat) + ROW_11@
        + dec_int(e.social_credit as int) + ROW_12@;
    let middle = row_rank(rank) + row_user(e);
    assert(row =~= attrs + middle + cells);
    assert(row.take(attrs.len() as int) =~= attrs);
    assert(row.skip(row.len() - cells.len()) =~= cells);
}

} // verus!
