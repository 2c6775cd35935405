//! Reading state of an article: the patch a reader applies, mirrored into
//! the frontmatter and the index.
use vstd::prelude::*;
use crate::fetch::writer::ArticleFrontMatter;
use crate::html::opt_view;
use crate::search::{params_view, ParamView, SqlParam};
use crate::text::{chars_of, extend_vec, string_of};

verus! {

#[derive(Debug, Clone)]
pub struct ArticleStatePatch {
    pub state: Option<String>,
    pub starred: Option<bool>,
    pub archived: Option<bool>,
}

impl Default for ArticleStatePatch {
    fn default() -> (r: Self)
        ensures
            r.state is None && r.starred is None && r.archived is None,
    {
        ArticleStatePatch { state: None, starred: None, archived: None }
    }
}

/// Set the patched fields of the frontmatter; every other field stays.
pub fn patch_frontmatter_flags(fm: &mut ArticleFrontMatter, patch: &ArticleStatePatch)
    ensures
        final(fm).state@ == match opt_view(patch.state) {
            Some(s) => s,
            None => old(fm).state@,
        },
        final(fm).starred == match patch.starred {
            Some(b) => b,
            None => old(fm).starred,
        },
        final(fm).archived == match patch.archived {
            Some(b) => b,
            None => old(fm).archived,
        },
        final(fm).title == old(fm).title,
        final(fm).url == old(fm).url,
        final(fm).source == old(fm).source,
        final(fm).author == old(fm).author,
        final(fm).published == old(fm).published,
        final(fm).fetched == old(fm).fetched,
        final(fm).tags == old(fm).tags,
        final(fm).word_count == old(fm).word_count,
        final(fm).reading_time == old(fm).reading_time,
        final(fm).lang == old(fm).lang,
        final(fm).excerpt == old(fm).excerpt,
        final(fm).highlights == old(fm).highlights,
        final(fm).content_hash == old(fm).content_hash,
        final(fm).revision == old(fm).revision,
        final(fm).extraction == old(fm).extraction,
{
    if let Some(s) = &patch.state {
        fm.state = s.clone();
    }
    if let Some(b) = patch.starred {
        fm.starred = b;
    }
    if let Some(b) = patch.archived {
        fm.archived = b;
    }
}

/// The columns a patch sets, in order.
pub open spec fn flag_sets(patch: ArticleStatePatch) -> Seq<Seq<char>> {
    (if patch.state is Some { seq!["state = ?"@] } else { Seq::empty() }) + (if patch.starred is Some {
        seq!["starred = ?"@]
    } else {
        Seq::empty()
    }) + (if patch.archived is Some { seq!["archived = ?"@] } else { Seq::empty() })
}

pub open spec fn bool_int(b: bool) -> i64 {
    if b { 1 } else { 0 }
}

/// The parameters bound to the set columns, in order.
pub open spec fn flag_params(patch: ArticleStatePatch) -> Seq<ParamView> {
    (match opt_view(patch.state) {
        Some(s) => seq![ParamView::Text(s)],
        None => Seq::empty(),
    }) + (match patch.starred {
        Some(b) => seq![ParamView::Int(bool_int(b))],
        None => Seq::empty(),
    }) + (match patch.archived {
        Some(b) => seq![ParamView::Int(bool_int(b))],
        None => Seq::empty(),
    })
}

/// The UPDATE statement of a patch (with the update time `now` and the
/// article's id), or none when the patch sets nothing.
pub fn article_flags_sql(id: i64, patch: &ArticleStatePatch, now: &str) -> (r: Option<(String, Vec<SqlParam>)>)
    ensures
        flag_sets(*patch).len() == 0 ==> r is None,
        flag_sets(*patch).len() > 0 ==> (r matches Some((sql, params)) && sql@ == "UPDATE articles SET "@
            + crate::text::join(flag_sets(*patch).push("updated_at = ?"@), ", "@) + " WHERE id = ?"@
            && params_view(params@) == flag_params(*patch) + seq![ParamView::Text(now@), ParamView::Int(id)]),
{
    let mut sets: Vec<Vec<char>> = Vec::new();
    let mut params: Vec<SqlParam> = Vec::new();
    if let Some(s) = &patch.state {
        sets.push(chars_of("state = ?"));
        params.push(SqlParam::Text(s.clone()));
    }
    if let Some(b) = patch.starred {
        sets.push(chars_of("starred = ?"));
        params.push(SqlParam::Int(if b { 1 } else { 0 }));
    }
    if let Some(b) = patch.archived {
        sets.push(chars_of("archived = ?"));
        params.push(SqlParam::Int(if b { 1 } else { 0 }));
    }
    assert(crate::text::seqs_view(sets@) =~= flag_sets(*patch));
    assert(params_view(params@) =~= flag_params(*patch));
    if sets.len() == 0 {
        return None;
    }
    sets.push(chars_of("updated_at = ?"));
    params.push(SqlParam::Text(now.to_owned()));
    params.push(SqlParam::Int(id));
    let joined = crate::text::join_parts(sets.as_slice(), chars_of(", ").as_slice());
    let mut sql = chars_of("UPDATE articles SET ");
    extend_vec(&mut sql, joined.as_slice());
    extend_vec(&mut sql, chars_of(" WHERE id = ?").as_slice());
    assert(crate::text::seqs_view(sets@) =~= flag_sets(*patch).push("updated_at = ?"@));
    Some((string_of(sql.as_slice()), params))
}

} // verus!
