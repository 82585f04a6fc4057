use vstd::prelude::*;

use crate::models::Action;
use crate::text::{contains_text, occurs_in};

verus! {

/// Builds the address of an API path.
pub fn build_url(path: &str) -> (r: String)
    ensures
        r@ == "https://api.trello.com/1"@ + path@,
{
    let mut s = String::from_str("https://api.trello.com/1");
    s.append(path);
    s
}

/// The address with the credentials added as query parameters, after `&` where it
/// already has a query and after `?` where it has none.
pub open spec fn authorized(url: Seq<char>, key: Seq<char>, token: Seq<char>) -> Seq<char> {
    url + (if occurs_in(url, "?"@) {
        "&"@
    } else {
        "?"@
    }) + "key="@ + key + "&token="@ + token
}

/// Adds the credentials to an address.
pub fn add_auth(url: &str, api_key: &str, api_token: &str) -> (r: String)
    ensures
        r@ == authorized(url@, api_key@, api_token@),
{
    let mut s = String::from_str(url);
    if contains_text(url, "?") {
        s.append("&");
    } else {
        s.append("?");
    }
    s.append("key=");
    s.append(api_key);
    s.append("&token=");
    s.append(api_token);
    s
}

/// How many comments one request asks for.
pub const COMMENT_PAGE: usize = 1000;

/// The path that lists a card's comments, newest first, one page at a time; the
/// page after the first starts below the comment with identifier `before`.
pub fn comments_path(card_id: &str, before: Option<&str>) -> (r: String)
    ensures
        r@ == "/cards/"@ + card_id@ + "/actions?filter=commentCard&limit=1000"@ + match before {
            Some(b) => "&before="@ + b@,
            None => Seq::empty(),
        },
{
    let mut s = String::from_str("/cards/");
    s.append(card_id);
    s.append("/actions?filter=commentCard&limit=1000");
    match before {
        Some(b) => {
            s.append("&before=");
            s.append(b);
        },
        None => {
            assert(s@ + Seq::<char>::empty() =~= s@);
        },
    }
    s
}

/// Where the next page of comments starts: after the last comment of a full page;
/// an empty or partial page is the last.
pub fn next_comment_cursor(batch: &[Action]) -> (r: Option<String>)
    ensures
        batch@.len() < COMMENT_PAGE ==> r is None,
        batch@.len() >= COMMENT_PAGE ==> r is Some && r->Some_0@ == batch@.last().id@,
{
    if batch.len() < COMMENT_PAGE {
        None
    } else {
        Some(batch[batch.len() - 1].id.clone())
    }
}

/// Why a card update cannot go ahead.
#[derive(PartialEq, Eq, Structural, Debug, Clone, Copy)]
pub enum UpdateFlagError {
    /// Nothing to update was asked for.
    NothingToDo,
    /// Archiving and restoring were both asked for.
    ArchiveAndRestore,
}

impl UpdateFlagError {
    /// The error as text for the user.
    pub fn message(&self) -> (r: String)
        ensures
            r@ == (match self {
                UpdateFlagError::NothingToDo => "at least one update flag must be provided"@,
                UpdateFlagError::ArchiveAndRestore => "--archive and --restore are mutually exclusive"@,
            }),
    {
        match self {
            UpdateFlagError::NothingToDo => String::from_str("at least one update flag must be provided"),
            UpdateFlagError::ArchiveAndRestore => String::from_str(
                "--archive and --restore are mutually exclusive",
            ),
        }
    }
}

/// Checks what a card update asks for, and says whether the card itself must be
/// fetched: labels, a comment, archiving and restoring need it; a new description
/// alone does not.
pub fn check_update(
    description: bool,
    labels: usize,
    clear_labels: usize,
    comment: bool,
    archive: bool,
    restore: bool,
) -> (r: Result<bool, UpdateFlagError>)
    ensures
        !description && labels == 0 && clear_labels == 0 && !comment && !archive && !restore
            ==> r == Err::<bool, UpdateFlagError>(UpdateFlagError::NothingToDo),
        archive && restore ==> r == Err::<bool, UpdateFlagError>(UpdateFlagError::ArchiveAndRestore),
        !(archive && restore) && (description || labels > 0 || clear_labels > 0 || comment || archive
            || restore) ==> r == Ok::<bool, UpdateFlagError>(
            labels > 0 || clear_labels > 0 || comment || archive || restore,
        ),
{
    let needs_card = labels > 0 || clear_labels > 0 || comment || archive || restore;
    if !description && !needs_card {
        return Err(UpdateFlagError::NothingToDo);
    }
    if archive && restore {
        return Err(UpdateFlagError::ArchiveAndRestore);
    }
    Ok(needs_card)
}

} // verus!
