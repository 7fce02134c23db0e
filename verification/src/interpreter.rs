//! The search-expression interpreter: a search such as
//! `ar: Nirvana, al: Nevermind & ca: Lithium` is read as `&`-separated groups
//! that must all hold, each made of `,`-separated filters of which one must
//! hold, and turned into the album query with its bound parameters.

use vstd::prelude::*;
use crate::db::{
    AlbumWithSongs, AlbumRecord, SongRecord, DbError, ParamValue, text_params, query,
    albums_with_songs_from_query, album_read_error, song_read_error, grew, added, is_query,
    stepped_answer, rows_with_songs_log, lemma_rows_with_songs_only_reads, full_result_view,
    param_values, rows_view,
};
use crate::sqlite::{Db, Stmt};
use crate::text::{
    lemma_trim_end_before_ws, ascii_lower, split_seq, trim_seq, trim_start_seq, trim_end_seq, is_ws, lemma_trim_idempotent,
    lemma_split_push, lemma_split_nonempty, lemma_split_concat, lemma_split_without_sep,
    lemma_trim_start_after_ws, lemma_trim_end_same_shape, chars_of, trim_range, string_from_range,
};

verus! {

/// The album query without a filter: albums with their song count and the
/// names of their performers.
pub const ALBUM_QUERY_BASE: &'static str = "SELECT a.id_album,\n\t\t\t\ta.name,\n\t\t\t\ta.path,\n\t\t\t\ta.year,\n\t\t\t\tCOUNT(r.id_rola) AS songs,\n\t\t\t\tCOALESCE((SELECT GROUP_CONCAT(DISTINCT p.name)\n\t\t\t\t\t\t  FROM rolas r2\n\t\t\t\t\t\t  LEFT JOIN performers p ON r2.id_performer = p.id_performer\n\t\t\t\t\t\t  WHERE r2.id_album = a.id_album), 'Unknown') AS artist\n\t\t FROM albums a\n\t\t LEFT JOIN rolas r ON r.id_album = a.id_album";

/// Grouping and ordering that close the album query.
pub const ALBUM_QUERY_TAIL: &'static str = " GROUP BY a.id_album, a.name, a.path, a.year\n\t\t  ORDER BY songs DESC, a.name COLLATE NOCASE ASC";

/// Condition of an artist filter (`ar:`).
pub const ARTIST_CONDITION: &'static str = "EXISTS (SELECT 1\n\t\t\t\t\t\t  FROM rolas r_artist\n\t\t\t\t\t\t  JOIN performers p_artist ON p_artist.id_performer = r_artist.id_performer\n\t\t\t\t\t\t  WHERE r_artist.id_album = a.id_album\n\t\t\t\t\t\t\tAND p_artist.name COLLATE NOCASE = ?)\n\t\t\t\t\t\t";

/// Condition of an album-name filter (`al:`).
pub const ALBUM_CONDITION: &'static str = "a.name COLLATE NOCASE = ?";

/// Condition of a song-title filter (`ca:`).
pub const TITLE_CONDITION: &'static str = "EXISTS (SELECT 1\n\t\t\t\t\t\t  FROM rolas r_song\n\t\t\t\t\t\t  WHERE r_song.id_album = a.id_album\n\t\t\t\t\t\t\tAND r_song.title COLLATE NOCASE = ?)\n\t\t\t\t\t\t";

} // verus!

verus! {

/// What a filter compares with its value.
#[derive(Clone, Copy, Debug, PartialEq, Eq, Structural)]
pub enum FilterField {
    /// `ar:`: a performer of one of the album's songs.
    Artist,
    /// `al:`: the album's name.
    Album,
    /// `ca:`: the title of one of the album's songs.
    Title,
}

/// One recognised filter of a search: a field and the (trimmed, non-empty)
/// value it must equal.
#[derive(Debug)]
pub struct SearchFilter {
    pub field: FilterField,
    pub value: String,
}

impl View for SearchFilter {
    type V = (FilterField, Seq<char>);

    open spec fn view(&self) -> (FilterField, Seq<char>) {
        (self.field, self.value@)
    }
}

/// The filters of a parsed search, group by group, as plain values.
pub open spec fn groups_view(groups: Seq<Vec<SearchFilter>>) -> Seq<Seq<(FilterField, Seq<char>)>> {
    groups.map_values(|g: Vec<SearchFilter>| g@.map_values(|f: SearchFilter| f@))
}

/// `value` starts with `x`, `y`, `:` (`x`, `y` lower-case letters), letters
/// compared without regard to case.
pub open spec fn starts_with_tag(value: Seq<char>, x: char, y: char) -> bool {
    &&& value.len() >= 3
    &&& ascii_lower(value[0]) == x
    &&& ascii_lower(value[1]) == y
    &&& value[2] == ':'
}

/// The field named by the prefix of a trimmed token, if it has one of the
/// three recognised prefixes. The prefixes are made of ASCII letters and
/// `:`, and the only characters whose lower-case form begins with one of
/// those are the ASCII letters themselves, so this is the same test as
/// lower-casing the token and looking for `ar:`, `al:` or `ca:` at its start.
pub open spec fn prefix_field(value: Seq<char>) -> Option<FilterField> {
    if starts_with_tag(value, 'a', 'r') {
        Some(FilterField::Artist)
    } else if starts_with_tag(value, 'a', 'l') {
        Some(FilterField::Album)
    } else if starts_with_tag(value, 'c', 'a') {
        Some(FilterField::Title)
    } else {
        None
    }
}

/// The filter a token stands for: its trimmed form must start with a
/// recognised prefix, and what follows the prefix, trimmed, must not be
/// empty. Any other token is ignored.
pub open spec fn token_filter(token: Seq<char>) -> Option<(FilterField, Seq<char>)> {
    let value = trim_seq(token);
    match prefix_field(value) {
        Some(field) => {
            let v = trim_seq(value.skip(3));
            if v.len() > 0 {
                Some((field, v))
            } else {
                None
            }
        },
        None => None,
    }
}

/// The filters of a list of tokens, in order, ignored tokens left out.
pub open spec fn collect_filters(tokens: Seq<Seq<char>>) -> Seq<(FilterField, Seq<char>)>
    decreases tokens.len(),
{
    if tokens.len() == 0 {
        seq![]
    } else {
        let r = collect_filters(tokens.drop_last());
        match token_filter(tokens.last()) {
            Some(f) => r.push(f),
            None => r,
        }
    }
}

/// The filters of one `&`-group: its `,`-separated tokens that are filters.
pub open spec fn group_filters(group: Seq<char>) -> Seq<(FilterField, Seq<char>)> {
    collect_filters(split_seq(group, ','))
}

/// The groups of a list of `&`-pieces that hold at least one filter.
pub open spec fn collect_groups(pieces: Seq<Seq<char>>) -> Seq<Seq<(FilterField, Seq<char>)>>
    decreases pieces.len(),
{
    if pieces.len() == 0 {
        seq![]
    } else {
        let r = collect_groups(pieces.drop_last());
        let g = group_filters(pieces.last());
        if g.len() > 0 {
            r.push(g)
        } else {
            r
        }
    }
}

/// A search expression read as groups of filters.
pub open spec fn parse_query(input: Seq<char>) -> Seq<Seq<(FilterField, Seq<char>)>> {
    collect_groups(split_seq(input, '&'))
}

/// `pieces` joined with `sep` between consecutive pieces.
pub open spec fn join_seqs(pieces: Seq<Seq<char>>, sep: Seq<char>) -> Seq<char>
    decreases pieces.len(),
{
    if pieces.len() == 0 {
        seq![]
    } else if pieces.len() == 1 {
        pieces[0]
    } else {
        join_seqs(pieces.drop_last(), sep) + sep + pieces.last()
    }
}

/// The SQL condition of a filter on `field`.
pub open spec fn condition_sql(field: FilterField) -> Seq<char> {
    match field {
        FilterField::Artist => ARTIST_CONDITION@,
        FilterField::Album => ALBUM_CONDITION@,
        FilterField::Title => TITLE_CONDITION@,
    }
}

/// A group's conditions joined by ` OR `, in parentheses.
pub open spec fn group_sql(g: Seq<(FilterField, Seq<char>)>) -> Seq<char> {
    "("@ + join_seqs(g.map_values(|f: (FilterField, Seq<char>)| condition_sql(f.0)), " OR "@)
        + ")"@
}

/// Nothing when there is no group; else ` WHERE ` and the groups joined by
/// ` AND `.
pub open spec fn where_sql(groups: Seq<Seq<(FilterField, Seq<char>)>>) -> Seq<char> {
    if groups.len() == 0 {
        seq![]
    } else {
        " WHERE "@ + join_seqs(
            groups.map_values(|g: Seq<(FilterField, Seq<char>)>| group_sql(g)),
            " AND "@,
        )
    }
}

/// The album query for the given groups of filters.
pub open spec fn query_sql(groups: Seq<Seq<(FilterField, Seq<char>)>>) -> Seq<char> {
    ALBUM_QUERY_BASE@ + where_sql(groups) + ALBUM_QUERY_TAIL@
}

/// The values of all filters, group after group, in order: the parameters
/// bound to the query's placeholders.
pub open spec fn query_params(groups: Seq<Seq<(FilterField, Seq<char>)>>) -> Seq<Seq<char>>
    decreases groups.len(),
{
    if groups.len() == 0 {
        seq![]
    } else {
        query_params(groups.drop_last()) + groups.last().map_values(
            |f: (FilterField, Seq<char>)| f.1,
        )
    }
}

/// How one more piece extends a join.
pub proof fn lemma_join_push(pieces: Seq<Seq<char>>, x: Seq<char>, sep: Seq<char>)
    ensures
        join_seqs(pieces.push(x), sep) == (if pieces.len() == 0 {
            x
        } else {
            join_seqs(pieces, sep) + sep + x
        }),
{
    assert(pieces.push(x).drop_last() =~= pieces);
}

} // verus!

verus! {

/// `c` is the lower-case letter `lower` or its upper-case form.
fn is_letter_ci(c: char, lower: char) -> (b: bool)
    requires
        'a' <= lower <= 'z',
    ensures
        b == (ascii_lower(c) == lower),
{
    let u = c as u32;
    let l = lower as u32;
    u == l || (0x41 <= u && u <= 0x5A && u + 32 == l)
}

/// The field named by the prefix of `v[a..b]`, as [`prefix_field`] says.
fn prefix_field_at(v: &Vec<char>, a: usize, b: usize) -> (r: Option<FilterField>)
    requires
        a <= b <= v@.len(),
    ensures
        r == prefix_field(v@.subrange(a as int, b as int)),
{
    if b - a < 3 {
        return None;
    }
    let c0 = v[a];
    let c1 = v[a + 1];
    let c2 = v[a + 2];
    let s = Ghost(v@.subrange(a as int, b as int));
    assert(s@[0] == c0 && s@[1] == c1 && s@[2] == c2);
    if is_letter_ci(c0, 'a') && is_letter_ci(c1, 'r') && c2 == ':' {
        Some(FilterField::Artist)
    } else if is_letter_ci(c0, 'a') && is_letter_ci(c1, 'l') && c2 == ':' {
        Some(FilterField::Album)
    } else if is_letter_ci(c0, 'c') && is_letter_ci(c1, 'a') && c2 == ':' {
        Some(FilterField::Title)
    } else {
        None
    }
}

/// The filter that the token `v[lo..hi]` stands for, as [`token_filter`]
/// says.
fn token_filter_at(v: &Vec<char>, lo: usize, hi: usize) -> (r: Option<SearchFilter>)
    requires
        lo <= hi <= v@.len(),
    ensures
        match r {
            Some(f) => token_filter(v@.subrange(lo as int, hi as int)) == Some(f@),
            None => token_filter(v@.subrange(lo as int, hi as int)) is None,
        },
{
    let (a, b) = trim_range(v, lo, hi);
    match prefix_field_at(v, a, b) {
        Some(field) => {
            assert(v@.subrange(a + 3, b as int) =~= v@.subrange(a as int, b as int).skip(3));
            let (c, d) = trim_range(v, a + 3, b);
            if c < d {
                let value = string_from_range(v, c, d);
                Some(SearchFilter { field, value })
            } else {
                None
            }
        },
        None => None,
    }
}

/// The filters of the `&`-group `v[lo..hi]`, as [`group_filters`] says.
fn group_filters_at(v: &Vec<char>, lo: usize, hi: usize) -> (r: Vec<SearchFilter>)
    requires
        lo <= hi <= v@.len(),
    ensures
        r@.map_values(|f: SearchFilter| f@) == group_filters(v@.subrange(lo as int, hi as int)),
{
    let mut r: Vec<SearchFilter> = Vec::new();
    let mut start = lo;
    let mut i = lo;
    let ghost mut done: Seq<Seq<char>> = seq![];
    proof {
        assert(v@.subrange(lo as int, lo as int) =~= Seq::<char>::empty());
        assert(done.push(Seq::<char>::empty()) =~= seq![Seq::<char>::empty()]);
    }
    while i < hi
        invariant
            lo <= start <= i <= hi <= v@.len(),
            split_seq(v@.subrange(lo as int, i as int), ',') == done.push(
                v@.subrange(start as int, i as int),
            ),
            r@.map_values(|f: SearchFilter| f@) == collect_filters(done),
        decreases hi - i,
    {
        proof {
            assert(v@.subrange(lo as int, i + 1) =~= v@.subrange(lo as int, i as int).push(
                v@[i as int],
            ));
            lemma_split_push(v@.subrange(lo as int, i as int), v@[i as int], ',');
        }
        if v[i] == ',' {
            let f = token_filter_at(v, start, i);
            proof {
                assert(done.push(v@.subrange(start as int, i as int)).drop_last() =~= done);
            }
            match f {
                Some(f) => {
                    r.push(f);
                },
                None => {},
            }
            proof {
                done = done.push(v@.subrange(start as int, i as int));
                assert(r@.map_values(|f: SearchFilter| f@) =~= collect_filters(done));
                assert(v@.subrange(i + 1, i + 1) =~= Seq::<char>::empty());
            }
            start = i + 1;
        } else {
            proof {
                assert(v@.subrange(start as int, i + 1) =~= v@.subrange(
                    start as int,
                    i as int,
                ).push(v@[i as int]));
                assert(done.push(v@.subrange(start as int, i as int)).update(
                    done.len() as int,
                    v@.subrange(start as int, i as int).push(v@[i as int]),
                ) =~= done.push(v@.subrange(start as int, i + 1)));
            }
        }
        i = i + 1;
    }
    let f = token_filter_at(v, start, hi);
    proof {
        let all = done.push(v@.subrange(start as int, hi as int));
        assert(all.drop_last() =~= done);
    }
    match f {
        Some(f) => {
            r.push(f);
        },
        None => {},
    }
    proof {
        let all = done.push(v@.subrange(start as int, hi as int));
        assert(r@.map_values(|f: SearchFilter| f@) =~= collect_filters(all));
    }
    r
}

/// Reads a search expression as groups of filters: the input is cut at each
/// `&` into groups and each group at each `,` into tokens; a token that,
/// trimmed, starts with `ar:`, `al:` or `ca:` (in any case) followed by a
/// non-empty value is a filter, others are ignored, and groups without a
/// filter are left out.
pub fn parse_search(input: &str) -> (groups: Vec<Vec<SearchFilter>>)
    ensures
        groups_view(groups@) == parse_query(input@),
{
    let v = chars_of(input);
    let n = v.len();
    let mut groups: Vec<Vec<SearchFilter>> = Vec::new();
    let mut start: usize = 0;
    let mut i: usize = 0;
    let ghost mut done: Seq<Seq<char>> = seq![];
    proof {
        assert(v@.subrange(0, 0) =~= Seq::<char>::empty());
        assert(done.push(Seq::<char>::empty()) =~= seq![Seq::<char>::empty()]);
    }
    while i < n
        invariant
            n == v@.len(),
            start <= i <= n,
            split_seq(v@.subrange(0, i as int), '&') == done.push(
                v@.subrange(start as int, i as int),
            ),
            groups_view(groups@) == collect_groups(done),
        decreases n - i,
    {
        proof {
            assert(v@.subrange(0, i + 1) =~= v@.subrange(0, i as int).push(v@[i as int]));
            lemma_split_push(v@.subrange(0, i as int), v@[i as int], '&');
        }
        if v[i] == '&' {
            let g = group_filters_at(&v, start, i);
            proof {
                assert(done.push(v@.subrange(start as int, i as int)).drop_last() =~= done);
            }
            if g.len() > 0 {
                groups.push(g);
            }
            proof {
                done = done.push(v@.subrange(start as int, i as int));
                assert(groups_view(groups@) =~= collect_groups(done));
                assert(v@.subrange(i + 1, i + 1) =~= Seq::<char>::empty());
            }
            start = i + 1;
        } else {
            proof {
                assert(v@.subrange(start as int, i + 1) =~= v@.subrange(
                    start as int,
                    i as int,
                ).push(v@[i as int]));
                assert(done.push(v@.subrange(start as int, i as int)).update(
                    done.len() as int,
                    v@.subrange(start as int, i as int).push(v@[i as int]),
                ) =~= done.push(v@.subrange(start as int, i + 1)));
            }
        }
        i = i + 1;
    }
    let g = group_filters_at(&v, start, n);
    proof {
        let all = done.push(v@.subrange(start as int, n as int));
        assert(all.drop_last() =~= done);
    }
    if g.len() > 0 {
        groups.push(g);
    }
    proof {
        let all = done.push(v@.subrange(start as int, n as int));
        assert(groups_view(groups@) =~= collect_groups(all));
        assert(v@.subrange(0, n as int) =~= input@);
    }
    groups
}

} // verus!

verus! {

/// The SQL condition of a filter on `field`.
pub fn condition_for(field: FilterField) -> (s: &'static str)
    ensures
        s@ == condition_sql(field),
{
    match field {
        FilterField::Artist => ARTIST_CONDITION,
        FilterField::Album => ALBUM_CONDITION,
        FilterField::Title => TITLE_CONDITION,
    }
}

/// The parenthesised disjunction of a group's conditions.
fn render_group(g: &Vec<SearchFilter>) -> (s: String)
    ensures
        s@ == group_sql(g@.map_values(|f: SearchFilter| f@)),
{
    let ghost conds = g@.map_values(|f: SearchFilter| f@).map_values(
        |f: (FilterField, Seq<char>)| condition_sql(f.0),
    );
    let mut body = String::new();
    let mut i: usize = 0;
    while i < g.len()
        invariant
            i <= g@.len(),
            conds == g@.map_values(|f: SearchFilter| f@).map_values(
                |f: (FilterField, Seq<char>)| condition_sql(f.0),
            ),
            body@ == join_seqs(conds.take(i as int), " OR "@),
        decreases g@.len() - i,
    {
        proof {
            lemma_join_push(conds.take(i as int), conds[i as int], " OR "@);
            assert(conds.take(i as int).push(conds[i as int]) =~= conds.take(i + 1));
        }
        if i > 0 {
            body.append(" OR ");
        }
        body.append(condition_for(g[i].field));
        i = i + 1;
    }
    proof {
        assert(conds.take(g@.len() as int) =~= conds);
    }
    let mut s = String::new();
    s.append("(");
    s.append(body.as_str());
    s.append(")");
    s
}

/// The album query and its parameters for already parsed groups of filters:
/// the base query, then (when there are groups) ` WHERE ` and the groups'
/// disjunctions joined by ` AND `, then the grouping and ordering; one
/// parameter per filter, in order.
pub fn album_query_for_groups(groups: &Vec<Vec<SearchFilter>>) -> (r: (String, Vec<String>))
    ensures
        r.0@ == query_sql(groups_view(groups@)),
        r.1@.map_values(|p: String| p@) == query_params(groups_view(groups@)),
{
    let ghost gv = groups_view(groups@);
    let ghost gsql = gv.map_values(|g: Seq<(FilterField, Seq<char>)>| group_sql(g));
    let mut sql = String::new();
    sql.append(ALBUM_QUERY_BASE);
    let mut params: Vec<String> = Vec::new();
    let mut i: usize = 0;
    while i < groups.len()
        invariant
            i <= groups@.len(),
            gv == groups_view(groups@),
            gsql == gv.map_values(|g: Seq<(FilterField, Seq<char>)>| group_sql(g)),
            sql@ == ALBUM_QUERY_BASE@ + where_sql(gv.take(i as int)),
            params@.map_values(|p: String| p@) == query_params(gv.take(i as int)),
        decreases groups@.len() - i,
    {
        let gs = render_group(&groups[i]);
        proof {
            let t = gv.take(i as int);
            let t1 = gv.take(i + 1);
            assert(t1.drop_last() =~= t);
            assert(t.map_values(|g: Seq<(FilterField, Seq<char>)>| group_sql(g)).push(gsql[i as int])
                =~= t1.map_values(|g: Seq<(FilterField, Seq<char>)>| group_sql(g)));
            lemma_join_push(
                t.map_values(|g: Seq<(FilterField, Seq<char>)>| group_sql(g)),
                gsql[i as int],
                " AND "@,
            );
        }
        if i == 0 {
            sql.append(" WHERE ");
        } else {
            sql.append(" AND ");
        }
        sql.append(gs.as_str());
        let g = &groups[i];
        let ghost before = params@.map_values(|p: String| p@);
        let ghost vals = g@.map_values(|f: SearchFilter| f@).map_values(
            |f: (FilterField, Seq<char>)| f.1,
        );
        let mut j: usize = 0;
        while j < g.len()
            invariant
                j <= g@.len(),
                vals == g@.map_values(|f: SearchFilter| f@).map_values(
                    |f: (FilterField, Seq<char>)| f.1,
                ),
                params@.map_values(|p: String| p@) == before + vals.take(j as int),
            decreases g@.len() - j,
        {
            let ghost prev = params@;
            params.push(g[j].value.clone());
            proof {
                assert(vals[j as int] == g@[j as int].value@);
                assert(params@ == prev.push(params@.last()));
                assert(params@.map_values(|p: String| p@) =~= prev.map_values(|p: String| p@).push(
                    vals[j as int],
                ));
                assert(before + vals.take(j + 1) =~= (before + vals.take(j as int)).push(
                    vals[j as int],
                ));
            }
            j = j + 1;
        }
        proof {
            assert(vals.take(g@.len() as int) =~= vals);
            assert(gv.take(i + 1).last() == g@.map_values(|f: SearchFilter| f@));
        }
        i = i + 1;
    }
    proof {
        assert(gv.take(groups@.len() as int) =~= gv);
    }
    sql.append(ALBUM_QUERY_TAIL);
    (sql, params)
}

/// The album query, and the parameters to bind to it, for a search
/// expression (see [`parse_search`] for how it is read).
pub fn album_query_sql_from_input(input: &str) -> (r: (String, Vec<String>))
    ensures
        r.0@ == query_sql(parse_query(input@)),
        r.1@.map_values(|p: String| p@) == query_params(parse_query(input@)),
{
    let groups = parse_search(input);
    album_query_for_groups(&groups)
}

} // verus!

verus! {

/// The number of occurrences of `c` in `s`.
pub open spec fn count_char(s: Seq<char>, c: char) -> nat
    decreases s.len(),
{
    if s.len() == 0 {
        0
    } else {
        count_char(s.drop_last(), c) + if s.last() == c {
            1nat
        } else {
            0nat
        }
    }
}

/// The number of occurrences of `c` in `s` from index `i` on.
spec fn count_from(s: Seq<char>, c: char, i: int) -> nat
    decreases s.len() - i,
{
    if i < 0 || i >= s.len() {
        0
    } else {
        count_from(s, c, i + 1) + if s[i] == c {
            1nat
        } else {
            0nat
        }
    }
}

proof fn lemma_count_concat(a: Seq<char>, b: Seq<char>, c: char)
    ensures
        count_char(a + b, c) == count_char(a, c) + count_char(b, c),
    decreases b.len(),
{
    if b.len() == 0 {
        assert(a + b =~= a);
    } else {
        lemma_count_concat(a, b.drop_last(), c);
        assert((a + b).drop_last() =~= a + b.drop_last());
    }
}

proof fn lemma_count_from(s: Seq<char>, c: char, i: int)
    requires
        0 <= i <= s.len(),
    ensures
        count_char(s.subrange(i, s.len() as int), c) == count_from(s, c, i),
    decreases s.len() - i,
{
    if i == s.len() {
        assert(s.subrange(i, s.len() as int) =~= Seq::<char>::empty());
    } else {
        lemma_count_from(s, c, i + 1);
        assert(s.subrange(i, s.len() as int) =~= seq![s[i]] + s.subrange(i + 1, s.len() as int));
        lemma_count_concat(seq![s[i]], s.subrange(i + 1, s.len() as int), c);
        assert(seq![s[i]].drop_last() =~= Seq::<char>::empty());
        assert(count_char(Seq::<char>::empty(), c) == 0);
        assert(count_char(seq![s[i]], c) == if s[i] == c {
            1nat
        } else {
            0nat
        });
    }
}

proof fn lemma_count_whole(s: Seq<char>, c: char)
    ensures
        count_char(s, c) == count_from(s, c, 0),
{
    lemma_count_from(s, c, 0);
    assert(s.subrange(0, s.len() as int) =~= s);
}

proof fn lemma_placeholders_in_base()
    ensures
        count_char(ALBUM_QUERY_BASE@, '?') == 0,
{
    assert(count_from(ALBUM_QUERY_BASE@, '?', 0) == 0) by {
        reveal_strlit("SELECT a.id_album,\n\t\t\t\ta.name,\n\t\t\t\ta.path,\n\t\t\t\ta.year,\n\t\t\t\tCOUNT(r.id_rola) AS songs,\n\t\t\t\tCOALESCE((SELECT GROUP_CONCAT(DISTINCT p.name)\n\t\t\t\t\t\t  FROM rolas r2\n\t\t\t\t\t\t  LEFT JOIN performers p ON r2.id_performer = p.id_performer\n\t\t\t\t\t\t  WHERE r2.id_album = a.id_album), 'Unknown') AS artist\n\t\t FROM albums a\n\t\t LEFT JOIN rolas r ON r.id_album = a.id_album");
        assert(ALBUM_QUERY_BASE@ == "SELECT a.id_album,\n\t\t\t\ta.name,\n\t\t\t\ta.path,\n\t\t\t\ta.year,\n\t\t\t\tCOUNT(r.id_rola) AS songs,\n\t\t\t\tCOALESCE((SELECT GROUP_CONCAT(DISTINCT p.name)\n\t\t\t\t\t\t  FROM rolas r2\n\t\t\t\t\t\t  LEFT JOIN performers p ON r2.id_performer = p.id_performer\n\t\t\t\t\t\t  WHERE r2.id_album = a.id_album), 'Unknown') AS artist\n\t\t FROM albums a\n\t\t LEFT JOIN rolas r ON r.id_album = a.id_album"@);
        reveal_with_fuel(count_from, 34);
        assert(count_from(ALBUM_QUERY_BASE@, '?', 320) == 0);
        assert(count_from(ALBUM_QUERY_BASE@, '?', 288) == 0);
        assert(count_from(ALBUM_QUERY_BASE@, '?', 256) == 0);
        assert(count_from(ALBUM_QUERY_BASE@, '?', 224) == 0);
        assert(count_from(ALBUM_QUERY_BASE@, '?', 192) == 0);
        assert(count_from(ALBUM_QUERY_BASE@, '?', 160) == 0);
        assert(count_from(ALBUM_QUERY_BASE@, '?', 128) == 0);
        assert(count_from(ALBUM_QUERY_BASE@, '?', 96) == 0);
        assert(count_from(ALBUM_QUERY_BASE@, '?', 64) == 0);
        assert(count_from(ALBUM_QUERY_BASE@, '?', 32) == 0);
        assert(count_from(ALBUM_QUERY_BASE@, '?', 0) == 0);
    }
    lemma_count_whole(ALBUM_QUERY_BASE@, '?');
}

proof fn lemma_placeholders_in_tail()
    ensures
        count_char(ALBUM_QUERY_TAIL@, '?') == 0,
{
    assert(count_from(ALBUM_QUERY_TAIL@, '?', 0) == 0) by {
        reveal_strlit(" GROUP BY a.id_album, a.name, a.path, a.year\n\t\t  ORDER BY songs DESC, a.name COLLATE NOCASE ASC");
        assert(ALBUM_QUERY_TAIL@ == " GROUP BY a.id_album, a.name, a.path, a.year\n\t\t  ORDER BY songs DESC, a.name COLLATE NOCASE ASC"@);
        reveal_with_fuel(count_from, 34);
        assert(count_from(ALBUM_QUERY_TAIL@, '?', 64) == 0);
        assert(count_from(ALBUM_QUERY_TAIL@, '?', 32) == 0);
        assert(count_from(ALBUM_QUERY_TAIL@, '?', 0) == 0);
    }
    lemma_count_whole(ALBUM_QUERY_TAIL@, '?');
}

proof fn lemma_placeholders_in_artist()
    ensures
        count_char(ARTIST_CONDITION@, '?') == 1,
{
    assert(count_from(ARTIST_CONDITION@, '?', 0) == 1) by {
        reveal_strlit("EXISTS (SELECT 1\n\t\t\t\t\t\t  FROM rolas r_artist\n\t\t\t\t\t\t  JOIN performers p_artist ON p_artist.id_performer = r_artist.id_performer\n\t\t\t\t\t\t  WHERE r_artist.id_album = a.id_album\n\t\t\t\t\t\t\tAND p_artist.name COLLATE NOCASE = ?)\n\t\t\t\t\t\t");
        assert(ARTIST_CONDITION@ == "EXISTS (SELECT 1\n\t\t\t\t\t\t  FROM rolas r_artist\n\t\t\t\t\t\t  JOIN performers p_artist ON p_artist.id_performer = r_artist.id_performer\n\t\t\t\t\t\t  WHERE r_artist.id_album = a.id_album\n\t\t\t\t\t\t\tAND p_artist.name COLLATE NOCASE = ?)\n\t\t\t\t\t\t"@);
        reveal_with_fuel(count_from, 34);
        assert(count_from(ARTIST_CONDITION@, '?', 192) == 1);
        assert(count_from(ARTIST_CONDITION@, '?', 160) == 1);
        assert(count_from(ARTIST_CONDITION@, '?', 128) == 1);
        assert(count_from(ARTIST_CONDITION@, '?', 96) == 1);
        assert(count_from(ARTIST_CONDITION@, '?', 64) == 1);
        assert(count_from(ARTIST_CONDITION@, '?', 32) == 1);
        assert(count_from(ARTIST_CONDITION@, '?', 0) == 1);
    }
    lemma_count_whole(ARTIST_CONDITION@, '?');
}

proof fn lemma_placeholders_in_album()
    ensures
        count_char(ALBUM_CONDITION@, '?') == 1,
{
    assert(count_from(ALBUM_CONDITION@, '?', 0) == 1) by {
        reveal_strlit("a.name COLLATE NOCASE = ?");
        assert(ALBUM_CONDITION@ == "a.name COLLATE NOCASE = ?"@);
        reveal_with_fuel(count_from, 34);
        assert(count_from(ALBUM_CONDITION@, '?', 0) == 1);
    }
    lemma_count_whole(ALBUM_CONDITION@, '?');
}

proof fn lemma_placeholders_in_title()
    ensures
        count_char(TITLE_CONDITION@, '?') == 1,
{
    assert(count_from(TITLE_CONDITION@, '?', 0) == 1) by {
        reveal_strlit("EXISTS (SELECT 1\n\t\t\t\t\t\t  FROM rolas r_song\n\t\t\t\t\t\t  WHERE r_song.id_album = a.id_album\n\t\t\t\t\t\t\tAND r_song.title COLLATE NOCASE = ?)\n\t\t\t\t\t\t");
        assert(TITLE_CONDITION@ == "EXISTS (SELECT 1\n\t\t\t\t\t\t  FROM rolas r_song\n\t\t\t\t\t\t  WHERE r_song.id_album = a.id_album\n\t\t\t\t\t\t\tAND r_song.title COLLATE NOCASE = ?)\n\t\t\t\t\t\t"@);
        reveal_with_fuel(count_from, 34);
        assert(count_from(TITLE_CONDITION@, '?', 128) == 0);
        assert(count_from(TITLE_CONDITION@, '?', 96) == 1);
        assert(count_from(TITLE_CONDITION@, '?', 64) == 1);
        assert(count_from(TITLE_CONDITION@, '?', 32) == 1);
        assert(count_from(TITLE_CONDITION@, '?', 0) == 1);
    }
    lemma_count_whole(TITLE_CONDITION@, '?');
}

proof fn lemma_placeholders_in_where()
    ensures
        count_char(" WHERE "@, '?') == 0,
{
    assert(count_from(" WHERE "@, '?', 0) == 0) by {
        reveal_strlit(" WHERE ");
        reveal_with_fuel(count_from, 8);
    }
    lemma_count_whole(" WHERE "@, '?');
}

proof fn lemma_placeholders_in_and()
    ensures
        count_char(" AND "@, '?') == 0,
{
    assert(count_from(" AND "@, '?', 0) == 0) by {
        reveal_strlit(" AND ");
        reveal_with_fuel(count_from, 8);
    }
    lemma_count_whole(" AND "@, '?');
}

proof fn lemma_placeholders_in_or()
    ensures
        count_char(" OR "@, '?') == 0,
{
    assert(count_from(" OR "@, '?', 0) == 0) by {
        reveal_strlit(" OR ");
        reveal_with_fuel(count_from, 8);
    }
    lemma_count_whole(" OR "@, '?');
}

proof fn lemma_placeholders_in_open_paren()
    ensures
        count_char("("@, '?') == 0,
{
    assert(count_from("("@, '?', 0) == 0) by {
        reveal_strlit("(");
        reveal_with_fuel(count_from, 8);
    }
    lemma_count_whole("("@, '?');
}

proof fn lemma_placeholders_in_close_paren()
    ensures
        count_char(")"@, '?') == 0,
{
    assert(count_from(")"@, '?', 0) == 0) by {
        reveal_strlit(")");
        reveal_with_fuel(count_from, 8);
    }
    lemma_count_whole(")"@, '?');
}

proof fn lemma_fixed_text_placeholders()
    ensures
        count_char(ALBUM_QUERY_BASE@, '?') == 0,
        count_char(ALBUM_QUERY_TAIL@, '?') == 0,
        count_char(ARTIST_CONDITION@, '?') == 1,
        count_char(ALBUM_CONDITION@, '?') == 1,
        count_char(TITLE_CONDITION@, '?') == 1,
        count_char(" WHERE "@, '?') == 0,
        count_char(" AND "@, '?') == 0,
        count_char(" OR "@, '?') == 0,
        count_char("("@, '?') == 0,
        count_char(")"@, '?') == 0,
{
    lemma_placeholders_in_base();
    lemma_placeholders_in_tail();
    lemma_placeholders_in_artist();
    lemma_placeholders_in_album();
    lemma_placeholders_in_title();
    lemma_placeholders_in_where();
    lemma_placeholders_in_and();
    lemma_placeholders_in_or();
    lemma_placeholders_in_open_paren();
    lemma_placeholders_in_close_paren();
}

/// The total number of occurrences of `c` in the pieces.
spec fn sum_counts(pieces: Seq<Seq<char>>, c: char) -> nat
    decreases pieces.len(),
{
    if pieces.len() == 0 {
        0
    } else {
        sum_counts(pieces.drop_last(), c) + count_char(pieces.last(), c)
    }
}

proof fn lemma_join_count(pieces: Seq<Seq<char>>, sep: Seq<char>, c: char)
    requires
        count_char(sep, c) == 0,
    ensures
        count_char(join_seqs(pieces, sep), c) == sum_counts(pieces, c),
    decreases pieces.len(),
{
    if pieces.len() == 0 {
        assert(count_char(seq![], c) == 0);
    } else if pieces.len() == 1 {
        assert(pieces.drop_last() =~= Seq::<Seq<char>>::empty());
        assert(sum_counts(pieces.drop_last(), c) == 0);
        assert(pieces.last() == pieces[0]);
    } else {
        lemma_join_count(pieces.drop_last(), sep, c);
        lemma_count_concat(join_seqs(pieces.drop_last(), sep), sep, c);
        lemma_count_concat(join_seqs(pieces.drop_last(), sep) + sep, pieces.last(), c);
    }
}

proof fn lemma_group_placeholders(g: Seq<(FilterField, Seq<char>)>)
    ensures
        count_char(group_sql(g), '?') == g.len(),
    decreases g.len(),
{
    lemma_fixed_text_placeholders();
    let conds = g.map_values(|f: (FilterField, Seq<char>)| condition_sql(f.0));
    lemma_join_count(conds, " OR "@, '?');
    lemma_conditions_count(g);
    lemma_count_concat("("@, join_seqs(conds, " OR "@), '?');
    lemma_count_concat("("@ + join_seqs(conds, " OR "@), ")"@, '?');
}

proof fn lemma_conditions_count(g: Seq<(FilterField, Seq<char>)>)
    ensures
        sum_counts(g.map_values(|f: (FilterField, Seq<char>)| condition_sql(f.0)), '?') == g.len(),
    decreases g.len(),
{
    lemma_fixed_text_placeholders();
    if g.len() > 0 {
        lemma_conditions_count(g.drop_last());
        assert(g.map_values(|f: (FilterField, Seq<char>)| condition_sql(f.0)).drop_last()
            =~= g.drop_last().map_values(|f: (FilterField, Seq<char>)| condition_sql(f.0)));
    }
}

proof fn lemma_groups_count(groups: Seq<Seq<(FilterField, Seq<char>)>>)
    ensures
        sum_counts(groups.map_values(|g: Seq<(FilterField, Seq<char>)>| group_sql(g)), '?')
            == query_params(groups).len(),
    decreases groups.len(),
{
    if groups.len() > 0 {
        lemma_groups_count(groups.drop_last());
        lemma_group_placeholders(groups.last());
        assert(groups.map_values(|g: Seq<(FilterField, Seq<char>)>| group_sql(g)).drop_last()
            =~= groups.drop_last().map_values(
            |g: Seq<(FilterField, Seq<char>)>| group_sql(g),
        ));
    }
}

/// The album query built for any search has exactly as many `?`
/// placeholders as there are parameters to bind to it.
pub proof fn lemma_placeholders_match_params(input: Seq<char>)
    ensures
        count_char(query_sql(parse_query(input)), '?') == query_params(parse_query(input)).len(),
{
    let groups = parse_query(input);
    lemma_fixed_text_placeholders();
    lemma_groups_count(groups);
    let gs = groups.map_values(|g: Seq<(FilterField, Seq<char>)>| group_sql(g));
    lemma_join_count(gs, " AND "@, '?');
    if groups.len() > 0 {
        lemma_count_concat(" WHERE "@, join_seqs(gs, " AND "@), '?');
    } else {
        assert(count_char(where_sql(groups), '?') == 0);
    }
    lemma_count_concat(ALBUM_QUERY_BASE@, where_sql(groups), '?');
    lemma_count_concat(ALBUM_QUERY_BASE@ + where_sql(groups), ALBUM_QUERY_TAIL@, '?');
}

/// A filter value that a token can yield: not empty, and unchanged by
/// trimming.
pub open spec fn is_clean_value(v: Seq<char>) -> bool {
    v.len() > 0 && trim_seq(v) == v
}

proof fn lemma_token_filter_clean(token: Seq<char>)
    ensures
        token_filter(token) matches Some(f) ==> is_clean_value(f.1),
{
    let value = trim_seq(token);
    lemma_trim_idempotent(value.skip(3));
}

proof fn lemma_collect_filters_clean(tokens: Seq<Seq<char>>)
    ensures
        forall|j: int|
            0 <= j < collect_filters(tokens).len() ==> is_clean_value(
                #[trigger] collect_filters(tokens)[j].1,
            ),
    decreases tokens.len(),
{
    if tokens.len() > 0 {
        lemma_collect_filters_clean(tokens.drop_last());
        lemma_token_filter_clean(tokens.last());
        let r = collect_filters(tokens.drop_last());
        let all = collect_filters(tokens);
        assert forall|j: int| 0 <= j < all.len() implies is_clean_value(#[trigger] all[j].1) by {
            if j < r.len() {
                assert(all[j] == r[j]);
            }
        }
    }
}

proof fn lemma_collect_groups_clean(pieces: Seq<Seq<char>>)
    ensures
        forall|i: int|
            0 <= i < collect_groups(pieces).len() ==> (#[trigger] collect_groups(pieces)[i]).len()
                > 0,
        forall|i: int, j: int|
            0 <= i < collect_groups(pieces).len() && 0 <= j < collect_groups(pieces)[i].len()
                ==> is_clean_value(#[trigger] collect_groups(pieces)[i][j].1),
    decreases pieces.len(),
{
    if pieces.len() > 0 {
        lemma_collect_groups_clean(pieces.drop_last());
        lemma_collect_filters_clean(split_seq(pieces.last(), ','));
        let r = collect_groups(pieces.drop_last());
        let g = group_filters(pieces.last());
        let all = collect_groups(pieces);
        assert forall|i: int| 0 <= i < all.len() implies (#[trigger] all[i]).len() > 0 by {
            if i < r.len() {
                assert(all[i] == r[i]);
            }
        }
        assert forall|i: int, j: int| 0 <= i < all.len() && 0 <= j < all[i].len() implies is_clean_value(
            #[trigger] all[i][j].1,
        ) by {
            if i < r.len() {
                assert(all[i] == r[i]);
            } else {
                assert(all[i] == g);
            }
        }
    }
}

/// Every group of a parsed search holds at least one filter, and every
/// filter's value is non-empty with no whitespace at either end.
pub proof fn lemma_parsed_search_well_formed(input: Seq<char>)
    ensures
        forall|i: int|
            0 <= i < parse_query(input).len() ==> (#[trigger] parse_query(input)[i]).len() > 0,
        forall|i: int, j: int|
            0 <= i < parse_query(input).len() && 0 <= j < parse_query(input)[i].len()
                ==> is_clean_value(#[trigger] parse_query(input)[i][j].1),
{
    lemma_collect_groups_clean(split_seq(input, '&'));
}

} // verus!

verus! {

/// How a search goes, as the statements `t` it ran show it: the album
/// query for the groups of `raw` (see [`query_sql`]) with their values bound
/// as texts (see [`query_params`]); when it ran, its rows are read one by
/// one, each album filled with its songs (see [`rows_with_songs_log`]).
pub open spec fn search_log(
    raw: Seq<char>,
    t: Seq<Stmt>,
    r: Result<Seq<(AlbumRecord, Seq<SongRecord>)>, DbError>,
) -> bool {
    &&& t.len() >= 1
    &&& is_query(
        t[0],
        query_sql(parse_query(raw)),
        query_params(parse_query(raw)).map_values(|v: Seq<char>| ParamValue::Text(v)),
    )
    &&& match stepped_answer(t[0]->Query_result) {
        Err(e) => t.len() == 1 && r == Err::<Seq<(AlbumRecord, Seq<SongRecord>)>, DbError>(e),
        Ok((rows, stop)) => rows_with_songs_log(rows, stop, t.skip(1), r),
    }
}

/// The albums that a search expression selects, each with its songs: the
/// statements run and the result are those [`search_log`] describes. A
/// search only runs queries: it changes nothing in the database.
pub fn search_from_raw(db: &mut Db, raw: &str) -> (r: Result<Vec<AlbumWithSongs>, DbError>)
    ensures
        grew(old(db).log(), final(db).log()),
        search_log(raw@, added(old(db).log(), final(db).log()), full_result_view(r)),
        forall|i: int|
            0 <= i < added(old(db).log(), final(db).log()).len() ==> (#[trigger] added(
                old(db).log(),
                final(db).log(),
            )[i]) is Query,
        r matches Err(e) ==> e is Sqlite || album_read_error(e, true) || song_read_error(e),
{
    let ghost l0 = db.log();
    let (sql, params) = album_query_sql_from_input(raw);
    let ghost texts = params@;
    let ps = text_params(params);
    proof {
        assert(param_values(ps@) =~= query_params(parse_query(raw@)).map_values(
            |v: Seq<char>| ParamValue::Text(v),
        )) by {
            assert(texts.map_values(|p: String| p@) == query_params(parse_query(raw@)));
            assert forall|i: int| 0 <= i < texts.len() implies texts[i]@ == query_params(
                parse_query(raw@),
            )[i] by {
                assert(texts.map_values(|p: String| p@)[i] == texts[i]@);
            }
        }
    }
    let q = query(db, sql.as_str(), &ps);
    let ghost l1 = db.log();
    proof {
        assert(added(l0, l1) =~= seq![l1.last()]);
        assert(l1.take(l0.len() as int) =~= l0);
    }
    let (rows, stop) = q?;
    let r = albums_with_songs_from_query(db, &rows, stop);
    proof {
        let l2 = db.log();
        let t = added(l0, l2);
        assert(t =~= seq![l1.last()] + added(l1, l2));
        assert(t.skip(1) =~= added(l1, l2));
        assert(l2.take(l0.len() as int) =~= l0) by {
            assert(l2.take(l1.len() as int) == l1);
        }
        lemma_rows_with_songs_only_reads(rows_view(rows@), stop, added(l1, l2), full_result_view(r));
        assert forall|i: int| 0 <= i < t.len() implies (#[trigger] t[i]) is Query by {
            if i > 0 {
                assert(t[i] == added(l1, l2)[i - 1]);
            }
        }
    }
    r
}

} // verus!

verus! {

/// A search in which no token is a filter (empty, blank, or only
/// unrecognised tokens) gives the album query without a `WHERE` clause and
/// no parameter: every album is listed.
pub proof fn lemma_search_without_filters_lists_all(input: Seq<char>)
    requires
        parse_query(input).len() == 0,
    ensures
        query_sql(parse_query(input)) == ALBUM_QUERY_BASE@ + ALBUM_QUERY_TAIL@,
        query_params(parse_query(input)).len() == 0,
{
    assert(ALBUM_QUERY_BASE@ + Seq::<char>::empty() =~= ALBUM_QUERY_BASE@);
}

/// The empty search has no filter.
pub proof fn lemma_empty_search_has_no_filters()
    ensures
        parse_query(Seq::<char>::empty()).len() == 0,
{
    let e = Seq::<char>::empty();
    assert(split_seq(e, '&') == seq![e]);
    assert(split_seq(e, ',') == seq![e]);
    assert(seq![e].drop_last() =~= Seq::<Seq<char>>::empty());
    assert(trim_seq(e) =~= e);
    assert(token_filter(e) is None);
    assert(seq![e].last() == e);
    assert(collect_filters(Seq::<Seq<char>>::empty()).len() == 0);
    assert(collect_filters(seq![e]).len() == 0);
    assert(group_filters(e).len() == 0);
    assert(collect_groups(Seq::<Seq<char>>::empty()).len() == 0);
}

} // verus!

verus! {

/// The filters of two lists of tokens, one after the other.
pub proof fn lemma_collect_filters_concat(a: Seq<Seq<char>>, b: Seq<Seq<char>>)
    ensures
        collect_filters(a + b) == collect_filters(a) + collect_filters(b),
    decreases b.len(),
{
    if b.len() == 0 {
        assert(a + b =~= a);
        assert(collect_filters(a) + collect_filters(b) =~= collect_filters(a));
    } else {
        assert((a + b).drop_last() =~= a + b.drop_last());
        assert((a + b).last() == b.last());
        lemma_collect_filters_concat(a, b.drop_last());
        match token_filter(b.last()) {
            Some(f) => {
                assert(collect_filters(a + b) =~= collect_filters(a) + collect_filters(b));
            },
            None => {},
        }
    }
}

/// The groups of two lists of `&`-pieces, one after the other.
pub proof fn lemma_collect_groups_concat(a: Seq<Seq<char>>, b: Seq<Seq<char>>)
    ensures
        collect_groups(a + b) == collect_groups(a) + collect_groups(b),
    decreases b.len(),
{
    if b.len() == 0 {
        assert(a + b =~= a);
        assert(collect_groups(a) + collect_groups(b) =~= collect_groups(a));
    } else {
        assert((a + b).drop_last() =~= a + b.drop_last());
        assert((a + b).last() == b.last());
        lemma_collect_groups_concat(a, b.drop_last());
        if group_filters(b.last()).len() > 0 {
            assert(collect_groups(a + b) =~= collect_groups(a) + collect_groups(b));
        }
    }
}

/// A list of pieces is its first piece followed by the rest.
proof fn lemma_first_and_rest(p: Seq<Seq<char>>)
    requires
        p.len() >= 1,
    ensures
        p == seq![p[0]] + p.skip(1),
{
    assert(p =~= seq![p[0]] + p.skip(1));
}

/// Joining two searches with `&` joins their groups: every group of `s` and
/// then every group of `u`. So a search followed by `&` and a part with no
/// filter (nothing, blank, unrecognised tokens, or prefixes with no value)
/// gives the same groups, and so the same query and parameters.
pub proof fn lemma_and_joins_groups(s: Seq<char>, u: Seq<char>)
    ensures
        parse_query(s + seq!['&'] + u) == parse_query(s) + parse_query(u),
        parse_query(u).len() == 0 ==> parse_query(s + seq!['&'] + u) == parse_query(s),
        parse_query(u).len() == 0 ==> query_sql(parse_query(s + seq!['&'] + u)) == query_sql(
            parse_query(s),
        ),
        parse_query(u).len() == 0 ==> query_params(parse_query(s + seq!['&'] + u)) == query_params(
            parse_query(s),
        ),
{
    let sp = split_seq(s, '&');
    let up = split_seq(u, '&');
    assert(s + seq!['&'] + u =~= s.push('&') + u);
    lemma_split_push(s, '&', '&');
    lemma_split_concat(s.push('&'), u, '&');
    lemma_split_nonempty(u, '&');
    lemma_first_and_rest(up);
    assert(sp.push(Seq::<char>::empty()).drop_last() =~= sp);
    assert(Seq::<char>::empty() + up[0] =~= up[0]);
    assert(split_seq(s + seq!['&'] + u, '&') =~= sp + up);
    lemma_collect_groups_concat(sp, up);
    if parse_query(u).len() == 0 {
        assert(parse_query(s) + parse_query(u) =~= parse_query(s));
    }
}

/// A search followed by `,` and a part with no filter gives the same groups,
/// and so the same query and parameters: the tokens added to the last group
/// hold no filter, and neither do the groups after them.
pub proof fn lemma_comma_part_without_filters(s: Seq<char>, u: Seq<char>)
    requires
        parse_query(u).len() == 0,
    ensures
        parse_query(s + seq![','] + u) == parse_query(s),
        query_sql(parse_query(s + seq![','] + u)) == query_sql(parse_query(s)),
        query_params(parse_query(s + seq![','] + u)) == query_params(parse_query(s)),
{
    let sp = split_seq(s, '&');
    let up = split_seq(u, '&');
    lemma_split_nonempty(s, '&');
    lemma_split_nonempty(u, '&');
    assert(s + seq![','] + u =~= s.push(',') + u);
    lemma_split_push(s, ',', '&');
    lemma_split_concat(s.push(','), u, '&');
    let sc = split_seq(s.push(','), '&');
    assert(sc.drop_last() =~= sp.drop_last());
    assert(sc.last() == sp.last().push(','));
    let x = sp.last().push(',') + up[0];
    assert(split_seq(s + seq![','] + u, '&') == sp.drop_last() + seq![x] + up.skip(1));
    // The joined piece has the filters of the last piece of `s` and of the
    // first piece of `u`, which has none.
    lemma_first_and_rest(up);
    lemma_collect_groups_concat(seq![up[0]], up.skip(1));
    assert(seq![up[0]].drop_last() =~= Seq::<Seq<char>>::empty());
    assert(collect_groups(seq![up[0]]) == (if group_filters(up[0]).len() > 0 {
        seq![group_filters(up[0])]
    } else {
        seq![]
    }));
    assert(group_filters(up[0]).len() == 0);
    assert(collect_groups(up.skip(1)).len() == 0);
    assert(x =~= sp.last() + (seq![','] + up[0]));
    lemma_split_concat(sp.last(), seq![','] + up[0], ',');
    lemma_split_concat(seq![','], up[0], ',');
    assert(seq![','] =~= Seq::<char>::empty().push(','));
    lemma_split_push(Seq::<char>::empty(), ',', ',');
    let cp = split_seq(sp.last(), ',');
    let cu = split_seq(up[0], ',');
    lemma_split_nonempty(sp.last(), ',');
    lemma_split_nonempty(up[0], ',');
    let cc = split_seq(seq![','] + up[0], ',');
    assert(split_seq(seq![','], ',') =~= seq![Seq::<char>::empty(), Seq::<char>::empty()]);
    assert(cc =~= seq![Seq::<char>::empty()] + seq![Seq::<char>::empty() + cu[0]] + cu.skip(1));
    assert(Seq::<char>::empty() + cu[0] =~= cu[0]);
    lemma_first_and_rest(cu);
    assert(cc =~= seq![Seq::<char>::empty()] + cu);
    assert(cc[0] =~= Seq::<char>::empty());
    assert(cc.skip(1) =~= cu);
    assert(cp.last() + Seq::<char>::empty() =~= cp.last());
    assert(split_seq(x, ',') =~= cp + cu);
    lemma_collect_filters_concat(cp, cu);
    assert(group_filters(x) =~= group_filters(sp.last()));
    // The groups around it are those of `s`.
    lemma_collect_groups_concat(sp.drop_last() + seq![x], up.skip(1));
    lemma_collect_groups_concat(sp.drop_last(), seq![x]);
    lemma_collect_groups_concat(sp.drop_last(), seq![sp.last()]);
    assert(sp.drop_last() + seq![sp.last()] =~= sp);
    assert(seq![x].drop_last() =~= Seq::<Seq<char>>::empty());
    assert(seq![sp.last()].drop_last() =~= Seq::<Seq<char>>::empty());
    assert(collect_groups(seq![x]) == collect_groups(seq![sp.last()]));
    assert(collect_groups(sp.drop_last() + seq![x] + up.skip(1)) =~= collect_groups(sp));
}

/// The first piece of a split is empty when the text is empty or starts
/// with the separator.
proof fn lemma_split_first_empty(q: Seq<char>, sep: char)
    requires
        q.len() == 0 || q[0] == sep,
    ensures
        split_seq(q, sep)[0] == Seq::<char>::empty(),
{
    if q.len() > 0 {
        assert(q =~= seq![sep] + q.skip(1));
        lemma_split_concat(seq![sep], q.skip(1), sep);
        assert(seq![sep] =~= Seq::<char>::empty().push(sep));
        lemma_split_push(Seq::<char>::empty(), sep, sep);
        assert(split_seq(seq![sep], sep).drop_last() =~= seq![Seq::<char>::empty()]);
    }
}

/// The last piece of a split is empty when the text is empty or ends with
/// the separator.
proof fn lemma_split_last_empty(p: Seq<char>, sep: char)
    requires
        p.len() == 0 || p.last() == sep,
    ensures
        split_seq(p, sep).last() == Seq::<char>::empty(),
{
    if p.len() > 0 {
        assert(p.drop_last().push(p.last()) =~= p);
        lemma_split_push(p.drop_last(), p.last(), sep);
    }
}

/// A token with no separator in it, standing between `a` (empty or ending
/// with a separator) and `b` (empty or starting with one), is a token of
/// the search of its own: the groups of `a + t + b` are those of the pieces
/// of `a` and `b` around it, and the group it is in, with its own filter.
proof fn lemma_token_in_context(a: Seq<char>, t: Seq<char>, b: Seq<char>)
    requires
        a.len() == 0 || a.last() == '&' || a.last() == ',',
        b.len() == 0 || b[0] == '&' || b[0] == ',',
        !t.contains('&'),
        !t.contains(','),
    ensures
        ({
            let ap = split_seq(a, '&');
            let bp = split_seq(b, '&');
            let g = collect_filters(split_seq(ap.last(), ',').drop_last()) + collect_filters(
                seq![t],
            ) + collect_filters(split_seq(bp[0], ',').skip(1));
            parse_query(a + t + b) == collect_groups(ap.drop_last()) + (if g.len() > 0 {
                seq![g]
            } else {
                seq![]
            }) + collect_groups(bp.skip(1))
        }),
{
    let ap = split_seq(a, '&');
    let bp = split_seq(b, '&');
    lemma_split_nonempty(a, '&');
    lemma_split_nonempty(b, '&');
    lemma_split_without_sep(t, '&');
    lemma_split_without_sep(t, ',');
    // Split on `&`.
    lemma_split_concat(a, t, '&');
    let at = split_seq(a + t, '&');
    assert(seq![t].skip(1) =~= Seq::<Seq<char>>::empty());
    assert(at =~= ap.drop_last() + seq![ap.last() + t]);
    lemma_split_concat(a + t, b, '&');
    assert(at.drop_last() =~= ap.drop_last());
    let m = ap.last() + t + bp[0];
    assert(at.last() + bp[0] =~= m);
    assert(split_seq(a + t + b, '&') =~= ap.drop_last() + seq![m] + bp.skip(1));
    // The piece around `t` has an empty piece on each side of `t`.
    let cp = split_seq(ap.last(), ',');
    let cb = split_seq(bp[0], ',');
    lemma_split_nonempty(ap.last(), ',');
    lemma_split_nonempty(bp[0], ',');
    if a.len() > 0 && a.last() == ',' {
        assert(a.drop_last().push(',') =~= a);
        lemma_split_push(a.drop_last(), ',', '&');
        lemma_split_nonempty(a.drop_last(), '&');
        assert(ap.last() == split_seq(a.drop_last(), '&').last().push(','));
    } else {
        lemma_split_last_empty(a, '&');
    }
    lemma_split_last_empty(ap.last(), ',');
    if b.len() > 0 && b[0] == ',' {
        assert(b =~= seq![','] + b.skip(1));
        lemma_split_concat(seq![','], b.skip(1), '&');
        assert(seq![','] =~= Seq::<char>::empty().push(','));
        lemma_split_push(Seq::<char>::empty(), ',', '&');
        assert(split_seq(seq![','], '&') =~= seq![seq![',']]);
        lemma_split_nonempty(b.skip(1), '&');
        assert(bp[0] == seq![','] + split_seq(b.skip(1), '&')[0]);
        assert(bp[0][0] == ',');
    } else {
        lemma_split_first_empty(b, '&');
    }
    lemma_split_first_empty(bp[0], ',');
    lemma_split_concat(ap.last(), t, ',');
    lemma_split_concat(ap.last() + t, bp[0], ',');
    let ct = split_seq(ap.last() + t, ',');
    assert(ct =~= cp.drop_last() + seq![cp.last() + t]);
    assert(cp.last() + t =~= t);
    assert(ct.last() + cb[0] =~= t);
    assert(ct.drop_last() =~= cp.drop_last());
    assert(split_seq(m, ',') =~= cp.drop_last() + seq![t] + cb.skip(1));
    lemma_collect_filters_concat(cp.drop_last() + seq![t], cb.skip(1));
    lemma_collect_filters_concat(cp.drop_last(), seq![t]);
    // The groups.
    lemma_collect_groups_concat(ap.drop_last() + seq![m], bp.skip(1));
    lemma_collect_groups_concat(ap.drop_last(), seq![m]);
    assert(seq![m].drop_last() =~= Seq::<Seq<char>>::empty());
    let g = collect_filters(cp.drop_last()) + collect_filters(seq![t]) + collect_filters(
        cb.skip(1),
    );
    assert(group_filters(m) == g);
    assert(seq![m].last() == m);
    assert(collect_groups(Seq::<Seq<char>>::empty()).len() == 0);
    if g.len() > 0 {
        assert(collect_groups(seq![m]) =~= seq![g]);
    } else {
        assert(collect_groups(seq![m]) =~= Seq::<Seq<(FilterField, Seq<char>)>>::empty());
    }
    assert(parse_query(a + t + b) == collect_groups(ap.drop_last()) + collect_groups(seq![m])
        + collect_groups(bp.skip(1)));
}

/// Putting in place of a token another token with the same filter (or with
/// none, where it has none) leaves the groups unchanged. A token here is
/// text without `&` or `,`, standing at the start of the search or right
/// after a separator, and at the end or right before one.
pub proof fn lemma_same_filter_same_groups(a: Seq<char>, t: Seq<char>, t2: Seq<char>, b: Seq<char>)
    requires
        a.len() == 0 || a.last() == '&' || a.last() == ',',
        b.len() == 0 || b[0] == '&' || b[0] == ',',
        !t.contains('&'),
        !t.contains(','),
        !t2.contains('&'),
        !t2.contains(','),
        token_filter(t) == token_filter(t2),
    ensures
        parse_query(a + t + b) == parse_query(a + t2 + b),
{
    lemma_token_in_context(a, t, b);
    lemma_token_in_context(a, t2, b);
    assert(seq![t].drop_last() =~= Seq::<Seq<char>>::empty());
    assert(seq![t2].drop_last() =~= Seq::<Seq<char>>::empty());
    assert(collect_filters(seq![t]) == collect_filters(seq![t2]));
}

/// `c` is an ASCII letter.
pub open spec fn is_ascii_letter(c: char) -> bool {
    ('a' <= c && c <= 'z') || ('A' <= c && c <= 'Z')
}

/// A token whose first two non-blank characters are letters reads as the
/// same filter (or as none) whatever the case of those two letters.
pub proof fn lemma_token_prefix_case(
    w: Seq<char>,
    x: char,
    y: char,
    x2: char,
    y2: char,
    r: Seq<char>,
)
    requires
        forall|k: int| 0 <= k < w.len() ==> is_ws(#[trigger] w[k]),
        is_ascii_letter(x),
        is_ascii_letter(y),
        ascii_lower(x2) == ascii_lower(x),
        ascii_lower(y2) == ascii_lower(y),
    ensures
        token_filter(w + seq![x, y] + r) == token_filter(w + seq![x2, y2] + r),
{
    let z = seq![x, y] + r;
    let z2 = seq![x2, y2] + r;
    assert(is_ascii_letter(x2) && is_ascii_letter(y2));
    assert(!is_ws(x) && !is_ws(y) && !is_ws(x2) && !is_ws(y2));
    assert(w + seq![x, y] + r =~= w + z);
    assert(w + seq![x2, y2] + r =~= w + z2);
    lemma_trim_start_after_ws(w, z);
    lemma_trim_start_after_ws(w, z2);
    assert(trim_start_seq(z) == z);
    assert(trim_start_seq(z2) == z2);
    assert forall|k: int| 0 <= k < z.len() implies is_ws(#[trigger] z[k]) == is_ws(z2[k]) by {
        if k >= 2 {
            assert(z[k] == r[k - 2] && z2[k] == r[k - 2]);
        }
    }
    lemma_trim_end_same_shape(z, z2);
    let n = trim_end_seq(z).len() as int;
    let v = trim_seq(w + z);
    let v2 = trim_seq(w + z2);
    assert(v == z.take(n));
    assert(v2 == z2.take(n));
    assert(v.len() == v2.len());
    if n >= 3 {
        assert(z[0] == x && z2[0] == x2 && z[1] == y && z2[1] == y2);
        assert(v[0] == x && v2[0] == x2);
        assert(v[1] == y && v2[1] == y2);
        assert(v[2] == v2[2]);
        assert(v.skip(3) =~= v2.skip(3));
    }
    assert(prefix_field(v) == prefix_field(v2));
}

/// The case of the letters of a filter's prefix does not matter: writing
/// the first two letters of a token in other cases (`AR:` for `ar:`, `Ca:`
/// for `ca:`, ...) gives the same groups, and so the same query and
/// parameters. The token is the text between `a` (empty, or ending with a
/// separator) and `b` (empty, or starting with one): leading blanks `w`,
/// the two letters, and a rest `r` without separators.
pub proof fn lemma_prefix_case_is_ignored(
    a: Seq<char>,
    w: Seq<char>,
    x: char,
    y: char,
    x2: char,
    y2: char,
    r: Seq<char>,
    b: Seq<char>,
)
    requires
        a.len() == 0 || a.last() == '&' || a.last() == ',',
        b.len() == 0 || b[0] == '&' || b[0] == ',',
        forall|k: int| 0 <= k < w.len() ==> is_ws(#[trigger] w[k]),
        is_ascii_letter(x),
        is_ascii_letter(y),
        ascii_lower(x2) == ascii_lower(x),
        ascii_lower(y2) == ascii_lower(y),
        !r.contains('&'),
        !r.contains(','),
    ensures
        parse_query(a + w + seq![x, y] + r + b) == parse_query(a + w + seq![x2, y2] + r + b),
        query_sql(parse_query(a + w + seq![x, y] + r + b)) == query_sql(
            parse_query(a + w + seq![x2, y2] + r + b),
        ),
        query_params(parse_query(a + w + seq![x, y] + r + b)) == query_params(
            parse_query(a + w + seq![x2, y2] + r + b),
        ),
{
    let t = w + seq![x, y] + r;
    let t2 = w + seq![x2, y2] + r;
    lemma_token_prefix_case(w, x, y, x2, y2, r);
    assert(is_ascii_letter(x2) && is_ascii_letter(y2));
    assert forall|c: char| c == '&' || c == ',' implies !t.contains(c) && !t2.contains(c) by {
        if t.contains(c) {
            let k = choose|k: int| 0 <= k < t.len() && t[k] == c;
            if k < w.len() {
                assert(t[k] == w[k]);
            } else if k >= w.len() + 2 {
                assert(t[k] == r[k - w.len() - 2]);
            }
        }
        if t2.contains(c) {
            let k = choose|k: int| 0 <= k < t2.len() && t2[k] == c;
            if k < w.len() {
                assert(t2[k] == w[k]);
            } else if k >= w.len() + 2 {
                assert(t2[k] == r[k - w.len() - 2]);
            }
        }
    }
    assert(!t.contains('&') && !t.contains(',') && !t2.contains('&') && !t2.contains(','));
    lemma_same_filter_same_groups(a, t, t2, b);
    assert(a + w + seq![x, y] + r + b =~= a + t + b);
    assert(a + w + seq![x2, y2] + r + b =~= a + t2 + b);
}

/// The filters of a group are joined by ` OR ` inside one pair of
/// parentheses: a single filter is its condition in parentheses, and one
/// more filter adds ` OR ` and its condition before the closing parenthesis.
pub proof fn lemma_group_joins_filters_with_or(
    g: Seq<(FilterField, Seq<char>)>,
    f: (FilterField, Seq<char>),
)
    ensures
        group_sql(seq![f]) == "("@ + condition_sql(f.0) + ")"@,
        g.len() > 0 ==> group_sql(g.push(f)) == group_sql(g).drop_last() + " OR "@ + condition_sql(
            f.0,
        ) + ")"@,
{
    reveal_strlit(")");
    let c = |x: (FilterField, Seq<char>)| condition_sql(x.0);
    assert(seq![f].map_values(c) =~= seq![condition_sql(f.0)]);
    assert(Seq::<Seq<char>>::empty().push(condition_sql(f.0)) =~= seq![condition_sql(f.0)]);
    lemma_join_push(Seq::<Seq<char>>::empty(), condition_sql(f.0), " OR "@);
    if g.len() > 0 {
        assert(g.push(f).map_values(c) =~= g.map_values(c).push(condition_sql(f.0)));
        lemma_join_push(g.map_values(c), condition_sql(f.0), " OR "@);
        let j = join_seqs(g.map_values(c), " OR "@);
        assert(("("@ + j + ")"@).drop_last() =~= "("@ + j);
        assert("("@ + (j + " OR "@ + condition_sql(f.0)) + ")"@ =~= "("@ + j + " OR "@
            + condition_sql(f.0) + ")"@);
    }
}

/// The groups of a search are joined by ` AND ` after ` WHERE `: no group
/// gives no clause, a single group gives ` WHERE ` and that group, and one
/// more group adds ` AND ` and that group, however many there are already.
pub proof fn lemma_where_joins_groups_with_and(
    groups: Seq<Seq<(FilterField, Seq<char>)>>,
    g: Seq<(FilterField, Seq<char>)>,
)
    ensures
        where_sql(Seq::<Seq<(FilterField, Seq<char>)>>::empty()) == Seq::<char>::empty(),
        where_sql(seq![g]) == " WHERE "@ + group_sql(g),
        groups.len() > 0 ==> where_sql(groups.push(g)) == where_sql(groups) + " AND "@ + group_sql(g),
{
    let m = |x: Seq<(FilterField, Seq<char>)>| group_sql(x);
    assert(seq![g].map_values(m) =~= seq![group_sql(g)]);
    assert(Seq::<Seq<char>>::empty().push(group_sql(g)) =~= seq![group_sql(g)]);
    lemma_join_push(Seq::<Seq<char>>::empty(), group_sql(g), " AND "@);
    if groups.len() > 0 {
        assert(groups.push(g).map_values(m) =~= groups.map_values(m).push(group_sql(g)));
        lemma_join_push(groups.map_values(m), group_sql(g), " AND "@);
        let j = join_seqs(groups.map_values(m), " AND "@);
        assert(" WHERE "@ + (j + " AND "@ + group_sql(g)) =~= " WHERE "@ + j + " AND "@ + group_sql(g));
    }
}

/// Joining two searches that both have filters with `&` puts ` AND `
/// between the conditions of the first and those of the second's first group:
/// the query of `s & u` where `u` has one group is the query of `s` with
/// ` AND ` and that group added to its `WHERE` clause.
pub proof fn lemma_and_adds_a_condition(s: Seq<char>, u: Seq<char>)
    requires
        parse_query(s).len() > 0,
        parse_query(u).len() == 1,
    ensures
        where_sql(parse_query(s + seq!['&'] + u)) == where_sql(parse_query(s)) + " AND "@ + group_sql(
            parse_query(u)[0],
        ),
{
    lemma_and_joins_groups(s, u);
    assert(parse_query(s) + parse_query(u) =~= parse_query(s).push(parse_query(u)[0]));
    lemma_where_joins_groups_with_and(parse_query(s), parse_query(u)[0]);
}

/// The grammar of one filter: blanks around a token, and between its prefix
/// and its value, are dropped; the prefix `ar:` (letters in any case) makes
/// an artist filter, `al:` an album filter and `ca:` a song-title filter,
/// and the value is the rest of the token as written.
pub proof fn lemma_filter_token(
    w1: Seq<char>,
    x: char,
    y: char,
    w2: Seq<char>,
    v: Seq<char>,
    w3: Seq<char>,
)
    requires
        forall|k: int| 0 <= k < w1.len() ==> is_ws(#[trigger] w1[k]),
        forall|k: int| 0 <= k < w2.len() ==> is_ws(#[trigger] w2[k]),
        forall|k: int| 0 <= k < w3.len() ==> is_ws(#[trigger] w3[k]),
        v.len() > 0,
        !is_ws(v[0]),
        !is_ws(v.last()),
    ensures
        ascii_lower(x) == 'a' && ascii_lower(y) == 'r' ==> token_filter(
            w1 + seq![x, y, ':'] + w2 + v + w3,
        ) == Some((FilterField::Artist, v)),
        ascii_lower(x) == 'a' && ascii_lower(y) == 'l' ==> token_filter(
            w1 + seq![x, y, ':'] + w2 + v + w3,
        ) == Some((FilterField::Album, v)),
        ascii_lower(x) == 'c' && ascii_lower(y) == 'a' ==> token_filter(
            w1 + seq![x, y, ':'] + w2 + v + w3,
        ) == Some((FilterField::Title, v)),
{
    if (ascii_lower(x) == 'a' || ascii_lower(x) == 'c') && (ascii_lower(y) == 'r' || ascii_lower(y)
        == 'l' || ascii_lower(y) == 'a') {
        assert(!is_ws(x));
        let body = seq![x, y, ':'] + w2 + v;
        let t = w1 + seq![x, y, ':'] + w2 + v + w3;
        assert(t =~= w1 + (body + w3));
        lemma_trim_start_after_ws(w1, body + w3);
        assert((body + w3)[0] == x);
        assert(trim_start_seq(body + w3) == body + w3);
        assert(body.last() == v.last());
        lemma_trim_end_before_ws(body, w3);
        assert(trim_seq(t) == body);
        assert(body[0] == x && body[1] == y && body[2] == ':');
        assert(body.skip(3) =~= w2 + v);
        lemma_trim_start_after_ws(w2, v);
        assert(trim_start_seq(v) == v);
        lemma_trim_end_before_ws(v, Seq::<char>::empty());
        assert(v + Seq::<char>::empty() =~= v);
        assert(trim_seq(body.skip(3)) == v);
    }
}

/// A search made of one filter token selects with that filter's own
/// condition, in parentheses after ` WHERE `, and binds its value as the one
/// parameter: the artist condition for an artist filter, the album-name
/// condition for an album filter, the song-title condition for a title
/// filter.
pub proof fn lemma_one_filter_search(t: Seq<char>)
    requires
        !t.contains('&'),
        !t.contains(','),
        token_filter(t) is Some,
    ensures
        ({
            let (field, value) = token_filter(t)->Some_0;
            let cond = if field == FilterField::Artist {
                ARTIST_CONDITION@
            } else if field == FilterField::Album {
                ALBUM_CONDITION@
            } else {
                TITLE_CONDITION@
            };
            &&& query_sql(parse_query(t)) == ALBUM_QUERY_BASE@ + " WHERE "@ + "("@ + cond + ")"@
                + ALBUM_QUERY_TAIL@
            &&& query_params(parse_query(t)) == seq![value]
        }),
{
    let f = token_filter(t)->Some_0;
    lemma_split_without_sep(t, '&');
    lemma_split_without_sep(t, ',');
    assert(seq![t].drop_last() =~= Seq::<Seq<char>>::empty());
    assert(seq![t].last() == t);
    assert(collect_filters(Seq::<Seq<char>>::empty()).len() == 0);
    assert(Seq::<(FilterField, Seq<char>)>::empty().push(f) =~= seq![f]);
    assert(collect_filters(Seq::<Seq<char>>::empty()) =~= Seq::<(FilterField, Seq<char>)>::empty());
    assert(collect_filters(seq![t]) =~= seq![f]);
    assert(group_filters(t) == seq![f]);
    assert(collect_groups(Seq::<Seq<char>>::empty()) =~= Seq::<Seq<(FilterField, Seq<char>)>>::empty());
    assert(Seq::<Seq<(FilterField, Seq<char>)>>::empty().push(seq![f]) =~= seq![seq![f]]);
    assert(collect_groups(seq![t]) =~= seq![seq![f]]);
    assert(parse_query(t) == seq![seq![f]]);
    lemma_group_joins_filters_with_or(seq![f], f);
    lemma_where_joins_groups_with_and(seq![seq![f]], seq![f]);
    assert(seq![seq![f]].drop_last() =~= Seq::<Seq<(FilterField, Seq<char>)>>::empty());
    assert(seq![f].map_values(|x: (FilterField, Seq<char>)| x.1) =~= seq![f.1]);
    assert(Seq::<Seq<char>>::empty() + seq![f.1] =~= seq![f.1]);
    assert(seq![seq![f]].last() == seq![f]);
    assert(query_params(Seq::<Seq<(FilterField, Seq<char>)>>::empty()) =~= Seq::<Seq<char>>::empty());
    assert(query_params(seq![seq![f]]) =~= seq![f.1]);
}

} // verus!
