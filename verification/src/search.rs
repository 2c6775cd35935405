//! Saved smart views, article queries, and the SQL they become.
use vstd::prelude::*;
use crate::html::opt_view;
use crate::index::ArticleFilter;
use crate::text::{
    chars_of, contains, extend_vec, occurs_at, join, join_parts, seqs_view, split_words, string_of, trim, trim_char,
    trimmed, trimmed_char, words,
};

verus! {

#[derive(Debug, Clone, Copy, PartialEq, Eq, Structural)]
pub enum SmartViewFilter {
    Inbox,
    Unread,
    Starred,
    Archived,
    All,
    Review,
}

impl Default for SmartViewFilter {
    fn default() -> (r: Self)
        ensures
            r == SmartViewFilter::Inbox,
    {
        SmartViewFilter::Inbox
    }
}

pub open spec fn spec_to_article_filter(f: SmartViewFilter) -> ArticleFilter {
    match f {
        SmartViewFilter::Inbox => ArticleFilter::Inbox,
        SmartViewFilter::Unread => ArticleFilter::Unread,
        SmartViewFilter::Starred => ArticleFilter::Starred,
        SmartViewFilter::Archived => ArticleFilter::Archived,
        SmartViewFilter::All => ArticleFilter::All,
        SmartViewFilter::Review => ArticleFilter::Review,
    }
}

pub open spec fn spec_from_article_filter(f: ArticleFilter) -> SmartViewFilter {
    match f {
        ArticleFilter::Inbox => SmartViewFilter::Inbox,
        ArticleFilter::Unread => SmartViewFilter::Unread,
        ArticleFilter::Starred => SmartViewFilter::Starred,
        ArticleFilter::Archived => SmartViewFilter::Archived,
        ArticleFilter::All => SmartViewFilter::All,
        ArticleFilter::Review => SmartViewFilter::Review,
    }
}

impl SmartViewFilter {
    pub fn to_article_filter(self) -> (r: ArticleFilter)
        ensures
            r == spec_to_article_filter(self),
    {
        match self {
            SmartViewFilter::Inbox => ArticleFilter::Inbox,
            SmartViewFilter::Unread => ArticleFilter::Unread,
            SmartViewFilter::Starred => ArticleFilter::Starred,
            SmartViewFilter::Archived => ArticleFilter::Archived,
            SmartViewFilter::All => ArticleFilter::All,
            SmartViewFilter::Review => ArticleFilter::Review,
        }
    }

    pub fn from_article_filter(filter: ArticleFilter) -> (r: Self)
        ensures
            r == spec_from_article_filter(filter),
    {
        match filter {
            ArticleFilter::Inbox => SmartViewFilter::Inbox,
            ArticleFilter::Unread => SmartViewFilter::Unread,
            ArticleFilter::Starred => SmartViewFilter::Starred,
            ArticleFilter::Archived => SmartViewFilter::Archived,
            ArticleFilter::All => SmartViewFilter::All,
            ArticleFilter::Review => SmartViewFilter::Review,
        }
    }
}

/// A smart view's filter and the article filter correspond one to one:
/// converting either way and back gives the filter started from.
pub proof fn lemma_filter_roundtrip(s: SmartViewFilter, a: ArticleFilter)
    ensures
        spec_from_article_filter(spec_to_article_filter(s)) == s,
        spec_to_article_filter(spec_from_article_filter(a)) == a,
{
}

/// Saved smart-view rule.
#[derive(Debug, Clone)]
pub struct SmartViewQuery {
    pub filter: SmartViewFilter,
    pub tag: Option<String>,
    pub query: Option<String>,
    pub source_id: Option<i64>,
}

impl Default for SmartViewQuery {
    fn default() -> (r: Self)
        ensures
            r.filter == SmartViewFilter::Inbox && r.tag is None && r.query is None
                && r.source_id is None,
    {
        SmartViewQuery { filter: SmartViewFilter::Inbox, tag: None, query: None, source_id: None }
    }
}

#[derive(Debug, Clone)]
pub struct TagCount {
    pub tag: String,
    pub count: i64,
}

#[derive(Debug, Clone)]
pub struct SmartViewRow {
    pub id: String,
    pub name: String,
    pub query: SmartViewQuery,
    pub position: i64,
}

#[derive(Debug, Clone)]
pub struct ArticleQuery {
    pub filter: ArticleFilter,
    pub source_id: Option<i64>,
    pub tag: Option<String>,
    pub search: Option<String>,
    pub limit: Option<i64>,
}

impl Default for ArticleQuery {
    fn default() -> (r: Self)
        ensures
            r.filter == ArticleFilter::Inbox && r.source_id is None && r.tag is None
                && r.search is None && r.limit is None,
    {
        ArticleQuery { filter: ArticleFilter::Inbox, source_id: None, tag: None, search: None, limit: None }
    }
}

/// `s` with every occurrence of `c` removed.
pub open spec fn remove_char(s: Seq<char>, c: char) -> Seq<char>
    decreases s.len(),
{
    if s.len() == 0 {
        s
    } else if s.last() == c {
        remove_char(s.drop_last(), c)
    } else {
        remove_char(s.drop_last(), c).push(s.last())
    }
}

/// The search terms of the words: quotes trimmed from each word's ends, blank
/// ones dropped, the rest stripped of quotes and wrapped in quotes.
pub open spec fn fts_terms(ws: Seq<Seq<char>>) -> Seq<Seq<char>>
    decreases ws.len(),
{
    if ws.len() == 0 {
        Seq::empty()
    } else {
        let t = trim(trim_char(ws.last(), '"'));
        let rest = fts_terms(ws.drop_last());
        if t.len() == 0 {
            rest
        } else {
            rest.push(seq!['"'] + remove_char(t, '"') + seq!['"'])
        }
    }
}

/// A safe FTS5 MATCH expression for user input: the quoted terms joined with
/// OR; none when the input has no term.
pub open spec fn fts_query_of(raw: Seq<char>) -> Option<Seq<char>> {
    let terms = fts_terms(words(raw));
    if terms.len() == 0 {
        None
    } else {
        Some(join(terms, " OR "@))
    }
}

fn without_char(s: &[char], c: char) -> (r: Vec<char>)
    ensures
        r@ == remove_char(s@, c),
{
    let mut out: Vec<char> = Vec::new();
    let mut i: usize = 0;
    while i < s.len()
        invariant
            i <= s@.len(),
            out@ == remove_char(s@.take(i as int), c),
        decreases s.len() - i,
    {
        assert(s@.take(i + 1).drop_last() =~= s@.take(i as int));
        if s[i] != c {
            out.push(s[i]);
        }
        i = i + 1;
    }
    assert(s@.take(s@.len() as int) =~= s@);
    out
}

/// Turn user input into a safe FTS5 MATCH expression (OR across tokens).
pub fn prepare_fts_query(raw: &str) -> (r: Option<String>)
    ensures
        opt_view(r) == fts_query_of(raw@),
{
    let cs = chars_of(raw);
    let ws = split_words(cs.as_slice());
    let mut terms: Vec<Vec<char>> = Vec::new();
    let mut i: usize = 0;
    while i < ws.len()
        invariant
            i <= ws@.len(),
            seqs_view(ws@) == words(raw@),
            seqs_view(terms@) == fts_terms(seqs_view(ws@).take(i as int)),
        decreases ws.len() - i,
    {
        let ghost before = seqs_view(ws@).take(i as int);
        assert(seqs_view(ws@).take(i + 1).drop_last() =~= before);
        assert(seqs_view(ws@).take(i + 1).last() == ws@[i as int]@);
        let unquoted = trimmed_char(ws[i].as_slice(), '"');
        let t = trimmed(unquoted.as_slice());
        if t.len() > 0 {
            let mut q: Vec<char> = vec!['"'];
            let inner = without_char(t.as_slice(), '"');
            extend_vec(&mut q, inner.as_slice());
            q.push('"');
            assert(q@ =~= seq!['"'] + remove_char(t@, '"') + seq!['"']);
            let ghost prev = terms@;
            terms.push(q);
            assert(seqs_view(terms@) =~= seqs_view(prev).push(q@));
        }
        i = i + 1;
    }
    assert(seqs_view(ws@).take(ws@.len() as int) =~= seqs_view(ws@));
    if terms.len() == 0 {
        None
    } else {
        let sep = chars_of(" OR ");
        let joined = join_parts(terms.as_slice(), sep.as_slice());
        Some(string_of(joined.as_slice()))
    }
}

/// A bound SQL parameter.
#[derive(Debug, Clone)]
pub enum SqlParam {
    Text(String),
    Int(i64),
}

pub enum ParamView {
    Text(Seq<char>),
    Int(i64),
}

pub open spec fn param_view(p: SqlParam) -> ParamView {
    match p {
        SqlParam::Text(s) => ParamView::Text(s@),
        SqlParam::Int(n) => ParamView::Int(n),
    }
}

pub open spec fn params_view(v: Seq<SqlParam>) -> Seq<ParamView> {
    v.map_values(|p: SqlParam| param_view(p))
}

pub open spec fn opt_seq<T>(o: Option<T>) -> Seq<T> {
    match o {
        Some(x) => seq![x],
        None => Seq::empty(),
    }
}

pub open spec fn filter_sql(f: ArticleFilter) -> Seq<char> {
    match f {
        ArticleFilter::Inbox | ArticleFilter::Unread => " AND a.state = 'unread' AND a.archived = 0"@,
        ArticleFilter::Starred => " AND a.starred = 1 AND a.archived = 0"@,
        ArticleFilter::Archived => " AND a.archived = 1"@,
        ArticleFilter::All => " AND a.archived = 0"@,
        ArticleFilter::Review => " AND a.quality = 'needs_review' AND a.archived = 0"@,
    }
}

/// The condition that selects the articles of a filter.
pub fn filter_clause(f: ArticleFilter) -> (r: &'static str)
    ensures
        r@ == filter_sql(f),
{
    match f {
        ArticleFilter::Inbox | ArticleFilter::Unread => " AND a.state = 'unread' AND a.archived = 0",
        ArticleFilter::Starred => " AND a.starred = 1 AND a.archived = 0",
        ArticleFilter::Archived => " AND a.archived = 1",
        ArticleFilter::All => " AND a.archived = 0",
        ArticleFilter::Review => " AND a.quality = 'needs_review' AND a.archived = 0",
    }
}

fn push_text(out: &mut Vec<char>, s: &str)
    ensures
        final(out)@ == old(out)@ + s@,
{
    let cs = chars_of(s);
    extend_vec(out, cs.as_slice());
}

/// The trimmed tag, when it is not blank.
pub open spec fn tag_of(tag: Option<Seq<char>>) -> Option<Seq<char>> {
    match tag {
        Some(t) => if trim(t).len() == 0 {
            None
        } else {
            Some(trim(t))
        },
        None => None,
    }
}

/// The SQL of an article query, and its parameters in order: full-text
/// search when the search text has terms (ranked by bm25), else newest first.
pub open spec fn query_sql_of(q: ArticleQuery) -> (Seq<char>, Seq<ParamView>) {
    let fts = match opt_view(q.search) {
        Some(s) => fts_query_of(s),
        None => None,
    };
    let tag = tag_of(opt_view(q.tag));
    let text = "\n            SELECT\n                a.id, a.source_id, s.title, a.url, a.path, a.title, a.author,\n                a.published_at, a.fetched_at, a.word_count, a.excerpt,\n                a.state, a.starred, a.archived, a.quality\n            "@
        + (if fts is Some {
        "FROM articles_fts fts\n"@ + "JOIN articles a ON a.id = fts.rowid\n"@
    } else {
        "FROM articles a\n"@
    }) + "JOIN sources s ON s.id = a.source_id\n"@ + "WHERE 1 = 1\n"@ + (if fts is Some {
        " AND fts MATCH ?"@
    } else {
        Seq::empty()
    }) + filter_sql(q.filter) + (if q.source_id is Some {
        " AND a.source_id = ?"@
    } else {
        Seq::empty()
    }) + (if tag is Some {
        " AND EXISTS (SELECT 1 FROM article_tags at WHERE at.article_id = a.id AND at.tag = ?)"@
    } else {
        Seq::empty()
    }) + (if fts is Some {
        " ORDER BY bm25(fts)"@
    } else {
        " ORDER BY COALESCE(a.published_at, a.fetched_at) DESC, a.id DESC"@
    }) + (if q.limit is Some {
        " LIMIT ?"@
    } else {
        Seq::empty()
    });
    let params = opt_seq(
        match fts {
            Some(f) => Some(ParamView::Text(f)),
            None => None,
        },
    ) + opt_seq(
        match q.source_id {
            Some(n) => Some(ParamView::Int(n)),
            None => None,
        },
    ) + opt_seq(
        match tag {
            Some(t) => Some(ParamView::Text(t)),
            None => None,
        },
    ) + opt_seq(
        match q.limit {
            Some(n) => Some(ParamView::Int(n)),
            None => None,
        },
    );
    (text, params)
}

/// The SQL and parameters that answer an article query.
pub fn article_query_sql(query: &ArticleQuery) -> (r: (String, Vec<SqlParam>))
    ensures
        (r.0@, params_view(r.1@)) == query_sql_of(*query),
{
    let fts = match &query.search {
        Some(s) => prepare_fts_query(s.as_str()),
        None => None,
    };
    let tag: Option<Vec<char>> = match &query.tag {
        Some(t) => {
            let tt = trimmed(chars_of(t.as_str()).as_slice());
            if tt.len() == 0 {
                None
            } else {
                Some(tt)
            }
        },
        None => None,
    };
    let mut sql: Vec<char> = Vec::new();
    let mut params: Vec<SqlParam> = Vec::new();
    let ghost mut expected: Seq<ParamView> = Seq::empty();
    push_text(
        &mut sql,
        "\n            SELECT\n                a.id, a.source_id, s.title, a.url, a.path, a.title, a.author,\n                a.published_at, a.fetched_at, a.word_count, a.excerpt,\n                a.state, a.starred, a.archived, a.quality\n            ",
    );
    if fts.is_some() {
        push_text(&mut sql, "FROM articles_fts fts\n");
        push_text(&mut sql, "JOIN articles a ON a.id = fts.rowid\n");
    } else {
        push_text(&mut sql, "FROM articles a\n");
    }
    push_text(&mut sql, "JOIN sources s ON s.id = a.source_id\n");
    push_text(&mut sql, "WHERE 1 = 1\n");
    if let Some(f) = &fts {
        push_text(&mut sql, " AND fts MATCH ?");
        params.push(SqlParam::Text(f.clone()));
    }
    push_text(&mut sql, filter_clause(query.filter));
    if let Some(n) = query.source_id {
        push_text(&mut sql, " AND a.source_id = ?");
        params.push(SqlParam::Int(n));
    }
    if let Some(t) = &tag {
        push_text(
            &mut sql,
            " AND EXISTS (SELECT 1 FROM article_tags at WHERE at.article_id = a.id AND at.tag = ?)",
        );
        params.push(SqlParam::Text(string_of(t.as_slice())));
    }
    if fts.is_some() {
        push_text(&mut sql, " ORDER BY bm25(fts)");
    } else {
        push_text(&mut sql, " ORDER BY COALESCE(a.published_at, a.fetched_at) DESC, a.id DESC");
    }
    if let Some(n) = query.limit {
        push_text(&mut sql, " LIMIT ?");
        params.push(SqlParam::Int(n));
    }
    let text = string_of(sql.as_slice());
    let ghost q = query_sql_of(*query);
    assert(text@ =~= q.0);
    assert(params_view(params@) =~= q.1);
    (text, params)
}

} // verus!

verus! {

/// The SQL of an article list, and its parameters in order.
pub open spec fn list_sql_of(filter: ArticleFilter, source_id: Option<i64>, limit: Option<i64>) -> (
    Seq<char>,
    Seq<ParamView>,
) {
    let text = "\n            SELECT\n                a.id, a.source_id, s.title, a.url, a.path, a.title, a.author,\n                a.published_at, a.fetched_at, a.word_count, a.excerpt,\n                a.state, a.starred, a.archived, a.quality\n            FROM articles a\n            JOIN sources s ON s.id = a.source_id\n            WHERE 1 = 1\n            "@
        + filter_sql(filter) + (if source_id is Some {
        " AND a.source_id = ?"@
    } else {
        Seq::empty()
    }) + " ORDER BY COALESCE(a.published_at, a.fetched_at) DESC, a.id DESC"@ + (if limit is Some {
        " LIMIT ?"@
    } else {
        Seq::empty()
    });
    let params = opt_seq(
        match source_id {
            Some(n) => Some(ParamView::Int(n)),
            None => None,
        },
    ) + opt_seq(
        match limit {
            Some(n) => Some(ParamView::Int(n)),
            None => None,
        },
    );
    (text, params)
}

/// The SQL and parameters that list articles of a filter, newest first.
pub fn article_list_sql(filter: ArticleFilter, source_id: Option<i64>, limit: Option<i64>) -> (r: (
    String,
    Vec<SqlParam>,
))
    ensures
        (r.0@, params_view(r.1@)) == list_sql_of(filter, source_id, limit),
{
    let mut sql: Vec<char> = Vec::new();
    let mut params: Vec<SqlParam> = Vec::new();
    push_text(
        &mut sql,
        "\n            SELECT\n                a.id, a.source_id, s.title, a.url, a.path, a.title, a.author,\n                a.published_at, a.fetched_at, a.word_count, a.excerpt,\n                a.state, a.starred, a.archived, a.quality\n            FROM articles a\n            JOIN sources s ON s.id = a.source_id\n            WHERE 1 = 1\n            ",
    );
    push_text(&mut sql, filter_clause(filter));
    if let Some(n) = source_id {
        push_text(&mut sql, " AND a.source_id = ?");
        params.push(SqlParam::Int(n));
    }
    push_text(&mut sql, " ORDER BY COALESCE(a.published_at, a.fetched_at) DESC, a.id DESC");
    if let Some(n) = limit {
        push_text(&mut sql, " LIMIT ?");
        params.push(SqlParam::Int(n));
    }
    let text = string_of(sql.as_slice());
    let ghost q = list_sql_of(filter, source_id, limit);
    assert(text@ =~= q.0);
    assert(params_view(params@) =~= q.1);
    (text, params)
}

/// The SQL of a tag list: tags starting with a non-empty prefix (matched with
/// LIKE), most used first, then by name ignoring case.
pub open spec fn tags_sql_of(prefix: Option<Seq<char>>, limit: i64) -> (Seq<char>, Seq<ParamView>) {
    let used = match prefix {
        Some(p) => if p.len() > 0 {
            Some(p)
        } else {
            None
        },
        None => None,
    };
    let text = "\n            SELECT tag, COUNT(*) AS count\n            FROM article_tags\n            WHERE 1 = 1\n            "@
        + (if used is Some {
        " AND tag LIKE ?"@
    } else {
        Seq::empty()
    }) + " GROUP BY tag ORDER BY count DESC, tag COLLATE NOCASE ASC LIMIT ?"@;
    let params = opt_seq(
        match used {
            Some(p) => Some(ParamView::Text(p + "%"@)),
            None => None,
        },
    ) + seq![ParamView::Int(limit)];
    (text, params)
}

pub fn tag_list_sql(prefix: Option<&str>, limit: i64) -> (r: (String, Vec<SqlParam>))
    ensures
        (r.0@, params_view(r.1@)) == tags_sql_of(
            match prefix {
                Some(p) => Some(p@),
                None => None,
            },
            limit,
        ),
{
    let mut sql: Vec<char> = Vec::new();
    let mut params: Vec<SqlParam> = Vec::new();
    push_text(
        &mut sql,
        "\n            SELECT tag, COUNT(*) AS count\n            FROM article_tags\n            WHERE 1 = 1\n            ",
    );
    if let Some(p) = prefix {
        let pc = chars_of(p);
        if pc.len() > 0 {
            push_text(&mut sql, " AND tag LIKE ?");
            let mut pattern = pc;
            push_text(&mut pattern, "%");
            params.push(SqlParam::Text(string_of(pattern.as_slice())));
        }
    }
    push_text(&mut sql, " GROUP BY tag ORDER BY count DESC, tag COLLATE NOCASE ASC LIMIT ?");
    params.push(SqlParam::Int(limit));
    let text = string_of(sql.as_slice());
    let ghost q = tags_sql_of(
        match prefix {
            Some(p) => Some(p@),
            None => None,
        },
        limit,
    );
    assert(text@ =~= q.0);
    assert(params_view(params@) =~= q.1);
    (text, params)
}

/// The name and the id a smart view is saved under: the trimmed name, which
/// must not be blank, and the trimmed id when one is given and not blank
/// (else a new id is to be made).
pub fn smart_view_identity(id: Option<&str>, name: &str) -> (r: Result<(Option<String>, String), crate::error::TidyError>)
    ensures
        trim(name@).len() == 0 ==> (r matches Err(crate::error::TidyError::Message(m)) && m@
            == "smart view name is required"@),
        trim(name@).len() > 0 ==> (r matches Ok((i, n)) && n@ == trim(name@) && opt_view(i)
            == match id {
            Some(s) => if trim(s@).len() == 0 {
                None
            } else {
                Some(trim(s@))
            },
            None => None,
        }),
{
    let n = trimmed(chars_of(name).as_slice());
    if n.len() == 0 {
        proof {
            reveal_strlit("smart view name is required");
        }
        return Err(crate::error::TidyError::Message("smart view name is required".to_owned()));
    }
    let i = match id {
        Some(s) => {
            let t = trimmed(chars_of(s).as_slice());
            if t.len() == 0 {
                None
            } else {
                Some(string_of(t.as_slice()))
            }
        },
        None => None,
    };
    Ok((i, string_of(n.as_slice())))
}

} // verus!

verus! {

proof fn lemma_remove_char_free(s: Seq<char>, c: char)
    ensures
        forall|i: int| 0 <= i < remove_char(s, c).len() ==> remove_char(s, c)[i] != c,
    decreases s.len(),
{
    if s.len() > 0 {
        let prev = remove_char(s.drop_last(), c);
        lemma_remove_char_free(s.drop_last(), c);
        if s.last() != c {
            let r = prev.push(s.last());
            assert(remove_char(s, c) == r);
            assert forall|i: int| 0 <= i < r.len() implies r[i] != c by {
                if i < prev.len() {
                    assert(r[i] == prev[i]);
                }
            }
        }
    }
}

/// Every search term is safe to hand to FTS5: wrapped in double quotes, with
/// no double quote inside.
pub proof fn lemma_fts_terms_quoted(ws: Seq<Seq<char>>)
    ensures
        forall|k: int|
            0 <= k < fts_terms(ws).len() ==> {
                let t = #[trigger] fts_terms(ws)[k];
                &&& t.len() >= 2
                &&& t[0] == '"'
                &&& t.last() == '"'
                &&& forall|i: int| 0 < i < t.len() - 1 ==> t[i] != '"'
            },
    decreases ws.len(),
{
    if ws.len() > 0 {
        lemma_fts_terms_quoted(ws.drop_last());
        let t = trim(trim_char(ws.last(), '"'));
        if t.len() > 0 {
            let inner = remove_char(t, '"');
            lemma_remove_char_free(t, '"');
            let q = seq!['"'] + inner + seq!['"'];
            assert forall|i: int| 0 < i < q.len() - 1 implies q[i] != '"' by {
                assert(q[i] == inner[i - 1]);
            }
            let rest = fts_terms(ws.drop_last());
            assert(fts_terms(ws) == rest.push(q));
            assert forall|k: int| 0 <= k < fts_terms(ws).len() implies {
                let t = #[trigger] fts_terms(ws)[k];
                &&& t.len() >= 2
                &&& t[0] == '"'
                &&& t.last() == '"'
                &&& forall|i: int| 0 < i < t.len() - 1 ==> t[i] != '"'
            } by {
                if k < rest.len() {
                    assert(fts_terms(ws)[k] == rest[k]);
                }
            }
        }
    }
}

proof fn lemma_contains_left(a: Seq<char>, b: Seq<char>, n: Seq<char>)
    requires
        contains(b, n),
    ensures
        contains(a + b, n),
        contains(b + a, n),
{
    let i = choose|i: int| occurs_at(b, n, i);
    assert((a + b).subrange(a.len() + i, a.len() + i + n.len()) =~= b.subrange(i, i + n.len()));
    assert(occurs_at(a + b, n, a.len() + i));
    assert((b + a).subrange(i, i + n.len()) =~= b.subrange(i, i + n.len()));
    assert(occurs_at(b + a, n, i));
}

proof fn lemma_occurs(h: Seq<char>, n: Seq<char>, i: int)
    requires
        0 <= i,
        i + n.len() <= h.len(),
        h.subrange(i, i + n.len()) =~= n,
    ensures
        contains(h, n),
{
    assert(occurs_at(h, n, i));
}

/// What each reader filter selects, by the columns of an article: Inbox and
/// Unread take unread articles that are not archived; Starred starred ones
/// that are not archived; Archived archived ones; All those not archived;
/// Review those whose extraction needs review and that are not archived.
pub proof fn lemma_filter_selects(f: ArticleFilter)
    ensures
        (f is Inbox || f is Unread) ==> contains(filter_sql(f), "a.state = 'unread'"@) && contains(
            filter_sql(f),
            "a.archived = 0"@,
        ),
        f is Starred ==> contains(filter_sql(f), "a.starred = 1"@) && contains(filter_sql(f), "a.archived = 0"@),
        f is Archived ==> contains(filter_sql(f), "a.archived = 1"@),
        f is All ==> contains(filter_sql(f), "a.archived = 0"@),
        f is Review ==> contains(filter_sql(f), "a.quality = 'needs_review'"@) && contains(
            filter_sql(f),
            "a.archived = 0"@,
        ),
{
    reveal_strlit("a.state = 'unread'");
    reveal_strlit("a.archived = 0");
    reveal_strlit("a.archived = 1");
    reveal_strlit("a.starred = 1");
    reveal_strlit("a.quality = 'needs_review'");
    reveal_strlit(" AND a.state = 'unread' AND a.archived = 0");
    reveal_strlit(" AND a.starred = 1 AND a.archived = 0");
    reveal_strlit(" AND a.archived = 1");
    reveal_strlit(" AND a.archived = 0");
    reveal_strlit(" AND a.quality = 'needs_review' AND a.archived = 0");
    let h = filter_sql(f);
    match f {
        ArticleFilter::Inbox | ArticleFilter::Unread => {
            lemma_occurs(h, "a.state = 'unread'"@, 5);
            lemma_occurs(h, "a.archived = 0"@, 28);
        },
        ArticleFilter::Starred => {
            lemma_occurs(h, "a.starred = 1"@, 5);
            lemma_occurs(h, "a.archived = 0"@, 23);
        },
        ArticleFilter::Archived => {
            lemma_occurs(h, "a.archived = 1"@, 5);
        },
        ArticleFilter::All => {
            lemma_occurs(h, "a.archived = 0"@, 5);
        },
        ArticleFilter::Review => {
            lemma_occurs(h, "a.quality = 'needs_review'"@, 5);
            lemma_occurs(h, "a.archived = 0"@, 36);
        },
    }
}

/// The SQL of an article list holds the condition of its filter: whatever
/// the filter requires of an article, the list requires too.
pub proof fn lemma_list_applies_filter(
    filter: ArticleFilter,
    source_id: Option<i64>,
    limit: Option<i64>,
    n: Seq<char>,
)
    requires
        contains(filter_sql(filter), n),
    ensures
        contains(list_sql_of(filter, source_id, limit).0, n),
{
    let fs = filter_sql(filter);
    let head = "\n            SELECT\n                a.id, a.source_id, s.title, a.url, a.path, a.title, a.author,\n                a.published_at, a.fetched_at, a.word_count, a.excerpt,\n                a.state, a.starred, a.archived, a.quality\n            FROM articles a\n            JOIN sources s ON s.id = a.source_id\n            WHERE 1 = 1\n            "@;
    let src = if source_id is Some { " AND a.source_id = ?"@ } else { Seq::empty() };
    let order = " ORDER BY COALESCE(a.published_at, a.fetched_at) DESC, a.id DESC"@;
    let lim = if limit is Some { " LIMIT ?"@ } else { Seq::empty() };
    lemma_contains_left(head, fs, n);
    lemma_contains_left(src, head + fs, n);
    lemma_contains_left(order, head + fs + src, n);
    lemma_contains_left(lim, head + fs + src + order, n);
}

/// The SQL of an article query (with or without search terms) holds the
/// condition of its filter.
#[verifier::rlimit(40)]
pub proof fn lemma_query_applies_filter(q: ArticleQuery, n: Seq<char>)
    requires
        contains(filter_sql(q.filter), n),
    ensures
        contains(query_sql_of(q).0, n),
{
    let fs = filter_sql(q.filter);
    let fts = match opt_view(q.search) {
        Some(s) => fts_query_of(s),
        None => None,
    };
    let tag = tag_of(opt_view(q.tag));
    let qhead = "\n            SELECT\n                a.id, a.source_id, s.title, a.url, a.path, a.title, a.author,\n                a.published_at, a.fetched_at, a.word_count, a.excerpt,\n                a.state, a.starred, a.archived, a.quality\n            "@
        + (if fts is Some {
        "FROM articles_fts fts\n"@ + "JOIN articles a ON a.id = fts.rowid\n"@
    } else {
        "FROM articles a\n"@
    }) + "JOIN sources s ON s.id = a.source_id\n"@ + "WHERE 1 = 1\n"@ + (if fts is Some {
        " AND fts MATCH ?"@
    } else {
        Seq::empty()
    });
    let qsrc = if q.source_id is Some { " AND a.source_id = ?"@ } else { Seq::empty() };
    let qtag = if tag is Some {
        " AND EXISTS (SELECT 1 FROM article_tags at WHERE at.article_id = a.id AND at.tag = ?)"@
    } else {
        Seq::empty()
    };
    let qord = if fts is Some {
        " ORDER BY bm25(fts)"@
    } else {
        " ORDER BY COALESCE(a.published_at, a.fetched_at) DESC, a.id DESC"@
    };
    let qlim = if q.limit is Some { " LIMIT ?"@ } else { Seq::empty() };
    lemma_contains_left(qhead, fs, n);
    lemma_contains_left(qsrc, qhead + fs, n);
    lemma_contains_left(qtag, qhead + fs + qsrc, n);
    lemma_contains_left(qord, qhead + fs + qsrc + qtag, n);
    lemma_contains_left(qlim, qhead + fs + qsrc + qtag + qord, n);
}

} // verus!
