//! Book clubs: what the API shows of a member, and the cursors that page
//! through a club's members and past books.
use vstd::prelude::*;
use vstd::string::*;

verus! {

/// A member's role in a book club.
#[derive(Debug, Clone, Copy, PartialEq, Eq, Structural)]
pub enum BookClubMemberRole {
    Member,
    Moderator,
    Admin,
    Creator,
}

/// A stored book club membership.
#[derive(Debug, Clone)]
pub struct BookClubMemberModel {
    pub id: String,
    pub user_id: String,
    pub display_name: Option<String>,
    pub role: BookClubMemberRole,
}

/// What a member's presentation reads of the member's user.
#[derive(Debug, Clone)]
pub struct MemberUser {
    pub username: String,
    pub avatar_path: Option<String>,
}

/// A book club member as the API presents it.
#[derive(Debug)]
pub struct BookClubMember {
    pub model: BookClubMemberModel,
}

/// The path of a user's avatar, relative to the server.
pub open spec fn avatar_path_spec(user_id: Seq<char>) -> Seq<char> {
    "/api/v2/users/"@ + user_id + "/avatar"@
}

impl BookClubMember {
    pub fn from_model(model: BookClubMemberModel) -> (r: BookClubMember)
        ensures
            r.model == model,
    {
        BookClubMember { model }
    }

    /// The member's avatar path, from the lookup of the member's user: none
    /// when the user has no avatar; an error when the user does not exist.
    pub fn avatar_url(&self, user: Option<MemberUser>) -> (r: Result<Option<String>, String>)
        ensures
            match user {
                None => r is Err && r->Err_0@ == "User not found"@,
                Some(u) => match u.avatar_path {
                    None => r == Ok::<Option<String>, String>(None),
                    Some(_) => r matches Ok(Some(p)) && p@ == avatar_path_spec(self.model.user_id@),
                },
            },
    {
        match user {
            None => Err(String::from_str("User not found")),
            Some(u) => {
                if u.avatar_path.is_none() {
                    return Ok(None);
                }
                let mut path = String::from_str("/api/v2/users/");
                path.append(self.model.user_id.as_str());
                path.append("/avatar");
                Ok(Some(path))
            },
        }
    }

    /// Whether the member's name needs the user looked up: it does exactly
    /// when the member has no display name of its own.
    pub fn needs_user_for_username(&self) -> (r: bool)
        ensures
            r == (self.model.display_name is None),
    {
        self.model.display_name.is_none()
    }

    /// The member's name: its display name when it has one, else the user's
    /// username; an error when the user is needed and does not exist.
    pub fn username(&self, user: Option<MemberUser>) -> (r: Result<String, String>)
        ensures
            match self.model.display_name {
                Some(name) => r matches Ok(n) && n@ == name@,
                None => match user {
                    Some(u) => r matches Ok(n) && n@ == u.username@,
                    None => r is Err && r->Err_0@ == "User not found"@,
                },
            },
    {
        if let Some(name) = &self.model.display_name {
            return Ok(name.clone());
        }
        match user {
            Some(u) => Ok(u.username),
            None => Err(String::from_str("User not found")),
        }
    }

    /// The member's user, from the lookup of `self.model.user_id`.
    pub fn user<U>(&self, found: Option<U>) -> (r: Result<U, String>)
        ensures
            match found {
                Some(u) => r == Ok::<U, String>(u),
                None => r is Err && r->Err_0@ == "User not found"@,
            },
    {
        match found {
            Some(u) => Ok(u),
            None => Err(String::from_str("User not found")),
        }
    }

    /// Whether the member created the club.
    pub fn is_creator(&self) -> (r: bool)
        ensures
            r == (self.model.role == BookClubMemberRole::Creator),
    {
        self.model.role == BookClubMemberRole::Creator
    }
}

/// The most rows a page of a club listing returns.
pub const MAX_PAGE_LIMIT: u64 = 100;

/// The number of rows a page asks for: the requested limit, capped.
pub fn page_limit(requested: u64) -> (r: u64)
    ensures
        r == if requested < MAX_PAGE_LIMIT {
            requested
        } else {
            MAX_PAGE_LIMIT
        },
{
    if requested < MAX_PAGE_LIMIT {
        requested
    } else {
        MAX_PAGE_LIMIT
    }
}

/// The cursors reported with a page.
#[derive(Debug)]
pub struct CursorPaginationInfo {
    pub current_cursor: Option<String>,
    pub next_cursor: Option<String>,
    pub limit: u64,
}

/// The cursors of a page whose rows have the given cursors, in order: the
/// page's own cursor is the one it was asked for, else its first row's; a
/// next page exists exactly when the page came back full.
pub fn cursor_page_info(after: Option<String>, page: &Vec<String>, limit: u64) -> (r:
    CursorPaginationInfo)
    ensures
        r.limit == limit,
        match after {
            Some(a) => r.current_cursor matches Some(c) && c@ == a@,
            None => if page@.len() > 0 {
                r.current_cursor matches Some(c) && c@ == page@[0]@
            } else {
                r.current_cursor is None
            },
        },
        if page@.len() > 0 && page@.len() == limit {
            r.next_cursor matches Some(c) && c@ == page@.last()@
        } else {
            r.next_cursor is None
        },
{
    let current_cursor = match after {
        Some(a) => Some(a),
        None => if page.len() > 0 {
            Some(page[0].clone())
        } else {
            None
        },
    };
    let n = page.len();
    let next_cursor = if n > 0 && n as u64 == limit {
        Some(page[n - 1].clone())
    } else {
        None
    };
    CursorPaginationInfo { current_cursor, next_cursor, limit }
}

/// The text before and after the first `sep` of `s`, if it holds one.
pub open spec fn split_once_spec(s: Seq<char>, sep: char) -> Option<(Seq<char>, Seq<char>)>
    decreases s.len(),
{
    if s.len() == 0 {
        None
    } else if s[0] == sep {
        Some((Seq::<char>::empty(), s.skip(1)))
    } else {
        match split_once_spec(s.skip(1), sep) {
            Some(parts) => Some((seq![s[0]] + parts.0, parts.1)),
            None => None,
        }
    }
}

proof fn lemma_split_once_at(s: Seq<char>, sep: char, k: int)
    requires
        0 <= k < s.len(),
        s[k] == sep,
        forall|j: int| 0 <= j < k ==> s[j] != sep,
    ensures
        split_once_spec(s, sep) == Some((s.take(k), s.skip(k + 1))),
    decreases k,
{
    if k == 0 {
        assert(s.take(0) =~= Seq::<char>::empty());
    } else {
        let rest = s.skip(1);
        assert forall|j: int| 0 <= j < k - 1 implies rest[j] != sep by {
            assert(rest[j] == s[j + 1]);
        }
        lemma_split_once_at(rest, sep, k - 1);
        assert(seq![s[0]] + rest.take(k - 1) =~= s.take(k));
        assert(rest.skip(k) =~= s.skip(k + 1));
    }
}

proof fn lemma_split_once_none(s: Seq<char>, sep: char)
    requires
        forall|j: int| 0 <= j < s.len() ==> s[j] != sep,
    ensures
        split_once_spec(s, sep) is None,
    decreases s.len(),
{
    if s.len() > 0 {
        let rest = s.skip(1);
        assert forall|j: int| 0 <= j < rest.len() implies rest[j] != sep by {
            assert(rest[j] == s[j + 1]);
        }
        lemma_split_once_none(rest, sep);
    }
}

/// Split `s` at its first `sep`.
pub fn split_once(s: &str, sep: char) -> (r: Option<(String, String)>)
    ensures
        match split_once_spec(s@, sep) {
            Some(parts) => r matches Some(p) && p.0@ == parts.0 && p.1@ == parts.1,
            None => r is None,
        },
{
    let n = s.unicode_len();
    let mut k: usize = 0;
    while k < n
        invariant
            n == s@.len(),
            k <= n,
            forall|j: int| 0 <= j < k ==> s@[j] != sep,
        decreases n - k,
    {
        if s.get_char(k) == sep {
            proof {
                lemma_split_once_at(s@, sep, k as int);
            }
            let before = s.substring_char(0, k);
            let after = s.substring_char(k + 1, n);
            assert(before@ =~= s@.take(k as int));
            assert(after@ =~= s@.skip(k + 1));
            return Some((String::from_str(before), String::from_str(after)));
        }
        k = k + 1;
    }
    proof {
        lemma_split_once_none(s@, sep);
    }
    None
}

/// The instant an RFC 3339 text denotes, as chrono's
/// `DateTime::parse_from_rfc3339` reads it: Unix seconds, the nanoseconds
/// past them and the UTC offset in seconds; none when the text is not RFC
/// 3339.
pub uninterp spec fn rfc3339_instant(text: Seq<char>) -> Option<(i64, u32, i32)>;

/// chrono's `DateTime::parse_from_rfc3339`, read back as plain numbers.
#[verifier::external_body]
fn parse_rfc3339(text: &str) -> (r: Option<(i64, u32, i32)>)
    ensures
        r == rfc3339_instant(text@),
{
    chrono::DateTime::parse_from_rfc3339(text).ok().map(
        |d| (d.timestamp(), d.timestamp_subsec_nanos(), d.offset().local_minus_utc()),
    )
}

/// The position of a past book in the club's listing (most recently
/// completed first, then by id, descending).
#[derive(Debug)]
pub struct BookCursor {
    /// Unix seconds, nanoseconds past them, UTC offset in seconds.
    pub completed_at: (i64, u32, i32),
    pub id: String,
}

/// The cursor text of a past book: its completion instant in RFC 3339 (empty
/// when unknown), a `|`, and its id.
pub open spec fn book_cursor_text(completed_at: Seq<char>, id: Seq<char>) -> Seq<char> {
    completed_at + "|"@ + id
}

/// The cursor of a past book, from its completion instant already written in
/// RFC 3339.
pub fn previous_book_cursor(completed_at: Option<&str>, id: &str) -> (r: String)
    ensures
        r@ == book_cursor_text(
            match completed_at {
                Some(t) => t@,
                None => Seq::<char>::empty(),
            },
            id@,
        ),
{
    let mut cursor = match completed_at {
        Some(t) => String::from_str(t),
        None => String::new(),
    };
    cursor.append("|");
    cursor.append(id);
    cursor
}

/// The outcome of reading a past-book cursor.
pub open spec fn book_cursor_spec(after: Seq<char>) -> Option<((i64, u32, i32), Seq<char>)> {
    match split_once_spec(after, '|') {
        Some(parts) => match rfc3339_instant(parts.0) {
            Some(instant) => Some((instant, parts.1)),
            None => None,
        },
        None => None,
    }
}

/// Read a past-book cursor; a malformed cursor is an error, never a reset
/// to the first page.
pub fn parse_previous_books_cursor(after: &str) -> (r: Result<BookCursor, String>)
    ensures
        match book_cursor_spec(after@) {
            Some(c) => r matches Ok(b) && b.completed_at == c.0 && b.id@ == c.1,
            None => r is Err && r->Err_0@ == "Invalid pagination cursor"@,
        },
{
    match split_once(after, '|') {
        Some((instant_text, id)) => match parse_rfc3339(instant_text.as_str()) {
            Some(completed_at) => Ok(BookCursor { completed_at, id }),
            None => Err(String::from_str("Invalid pagination cursor")),
        },
        None => Err(String::from_str("Invalid pagination cursor")),
    }
}

/// Reading back the cursor of a past book splits it into the completion text
/// and the id it was made from, whatever the id holds, as long as the
/// completion text has no `|`.
pub proof fn law_book_cursor_round_trip(completed_at: Seq<char>, id: Seq<char>)
    requires
        forall|j: int| 0 <= j < completed_at.len() ==> completed_at[j] != '|',
    ensures
        split_once_spec(book_cursor_text(completed_at, id), '|') == Some((completed_at, id)),
{
    reveal_strlit("|");
    let s = book_cursor_text(completed_at, id);
    let k = completed_at.len() as int;
    assert(s =~= completed_at + seq!['|'] + id);
    assert(s[k] == '|');
    assert forall|j: int| 0 <= j < k implies s[j] != '|' by {
        assert(s[j] == completed_at[j]);
    }
    lemma_split_once_at(s, '|', k);
    assert(s.take(k) =~= completed_at);
    assert(s.skip(k + 1) =~= id);
}

/// The rows of a listing that come after the cursor row `c` in its order
/// (`later(a, b)`: `a` is listed after `b`), in listing order: what a keyset
/// page reads before it takes its first rows.
pub open spec fn rows_after<K>(rows: Seq<K>, later: spec_fn(K, K) -> bool, c: K) -> Seq<K>
    decreases rows.len(),
{
    if rows.len() == 0 {
        rows
    } else {
        let rest = rows_after(rows.drop_last(), later, c);
        if later(rows.last(), c) {
            rest.push(rows.last())
        } else {
            rest
        }
    }
}

/// A page of a keyset-paginated listing: its first `limit` rows, or, after a
/// cursor row, the first `limit` rows listed after it.
pub open spec fn keyset_page<K>(rows: Seq<K>, later: spec_fn(K, K) -> bool, after: Option<K>, limit: nat) -> Seq<K> {
    match after {
        None => rows.take(limit as int),
        Some(c) => {
            let r = rows_after(rows, later, c);
            r.take(if limit <= r.len() { limit as int } else { r.len() as int })
        },
    }
}

/// The listing is in a strict order: each row is listed after the ones
/// before it, no row after itself, and the order is transitive.
pub open spec fn strictly_ordered<K>(rows: Seq<K>, later: spec_fn(K, K) -> bool) -> bool {
    &&& forall|a: int, b: int| 0 <= a < b < rows.len() ==> later(#[trigger] rows[b], #[trigger] rows[a])
    &&& forall|a: int| 0 <= a < rows.len() ==> !later(#[trigger] rows[a], rows[a])
    &&& forall|a: int, b: int, c: int|
        0 <= a < rows.len() && 0 <= b < rows.len() && 0 <= c < rows.len() && later(#[trigger] rows[a], #[trigger] rows[b])
            && later(rows[b], #[trigger] rows[c]) ==> later(rows[a], rows[c])
}

proof fn lemma_rows_after_is_suffix<K>(rows: Seq<K>, later: spec_fn(K, K) -> bool, c: K, j: int)
    requires
        -1 <= j < rows.len(),
        forall|a: int| 0 <= a <= j ==> !later(#[trigger] rows[a], c),
        forall|a: int| j < a < rows.len() ==> later(#[trigger] rows[a], c),
    ensures
        rows_after(rows, later, c) == rows.skip(j + 1),
    decreases rows.len(),
{
    if rows.len() == 0 {
        assert(rows.skip(j + 1) =~= rows);
    } else {
        let init = rows.drop_last();
        let j2 = if j < init.len() { j } else { init.len() - 1 };
        assert forall|a: int| 0 <= a <= j2 implies !later(#[trigger] init[a], c) by {
            assert(init[a] == rows[a]);
        }
        assert forall|a: int| j2 < a < init.len() implies later(#[trigger] init[a], c) by {
            assert(init[a] == rows[a]);
        }
        lemma_rows_after_is_suffix(init, later, c, j2);
        assert(rows.last() == rows[rows.len() - 1]);
        if j < init.len() {
            assert(rows.skip(j + 1) =~= init.skip(j + 1).push(rows.last()));
        } else {
            assert(init.skip(j2 + 1) =~= Seq::<K>::empty());
            assert(rows.skip(j + 1) =~= Seq::<K>::empty());
        }
    }
}

/// Keyset paging neither repeats nor skips a row: in a strictly ordered
/// listing, the rows listed after any of its rows are exactly the rows that
/// follow it, so the page read after a page's last row starts right after
/// that row.
pub proof fn law_keyset_page_continues<K>(rows: Seq<K>, later: spec_fn(K, K) -> bool, j: int, limit: nat)
    requires
        strictly_ordered(rows, later),
        0 <= j < rows.len(),
    ensures
        rows_after(rows, later, rows[j]) == rows.skip(j + 1),
        keyset_page(rows, later, Some(rows[j]), limit) == rows.subrange(
            j + 1,
            if j + 1 + limit <= rows.len() { j + 1 + limit } else { rows.len() as int },
        ),
{
    assert forall|a: int| 0 <= a <= j implies !later(#[trigger] rows[a], rows[j]) by {
        if a < j && later(rows[a], rows[j]) {
            assert(later(rows[j], rows[a]));
            assert(later(rows[a], rows[a]));
        }
    }
    assert forall|a: int| j < a < rows.len() implies later(#[trigger] rows[a], rows[j]) by {}
    lemma_rows_after_is_suffix(rows, later, rows[j], j);
    let r = rows_after(rows, later, rows[j]);
    assert(r.take(if limit <= r.len() { limit as int } else { r.len() as int }) =~= rows.subrange(
        j + 1,
        if j + 1 + limit <= rows.len() { j + 1 + limit } else { rows.len() as int },
    ));
}

/// Following the cursors pages through the whole listing once: with pages of
/// `limit` rows, the first page (no cursor) holds the first `limit` rows, and
/// the page after the last row of a full page `k` (rows `k * limit` to
/// `(k + 1) * limit - 1`) holds the rows of page `k + 1`; so the pages, read
/// in turn until one is not full, hold every row of the listing exactly once,
/// in order.
pub proof fn law_keyset_pages_cover_listing<K>(rows: Seq<K>, later: spec_fn(K, K) -> bool, limit: nat, k: nat)
    requires
        strictly_ordered(rows, later),
        limit > 0,
        (k + 1) * limit <= rows.len(),
    ensures
        keyset_page(rows, later, None, limit) == rows.subrange(
            0,
            if limit <= rows.len() { limit as int } else { rows.len() as int },
        ),
        keyset_page(rows, later, Some(rows[(k + 1) * limit - 1]), limit) == rows.subrange(
            ((k + 1) * limit) as int,
            if (k + 2) * limit <= rows.len() { ((k + 2) * limit) as int } else { rows.len() as int },
        ),
{
    assert((k + 1) * limit >= limit) by (nonlinear_arith)
        requires
            limit > 0,
    ;
    assert((k + 2) * limit == (k + 1) * limit + limit) by (nonlinear_arith);
    law_keyset_page_continues(rows, later, (k + 1) * limit - 1, limit);
    assert(rows.take(limit as int) =~= rows.subrange(0, limit as int));
}

} // verus!
