//! The texts of the atom feed over the collected fork events.
//!
//! The feed document itself is assembled outside the library; the library
//! computes each entry's texts from the event, so that what the feed says
//! is pinned down here.

use vstd::prelude::*;

verus! {

use vstd::string::StringExecFns;
use crate::events::Event;

/// The title of one feed entry.
pub open spec fn entry_title_text(e: &Event) -> Seq<char> {
    e.actor.display_login@ + " forked "@ + e.repo.name@
}

/// The author link of one feed entry.
pub open spec fn entry_author_uri_text(e: &Event) -> Seq<char> {
    "https://github.com/"@ + e.actor.display_login@
}

/// The summary of one feed entry; meaningful only for events that carry a
/// forkee.
pub open spec fn entry_summary_text(e: &Event) -> Seq<char> {
    e.repo.name@ + " was forked by "@ + e.actor.display_login@ + " at "@
        + e.payload.forkee->Some_0.full_name@ + "."@
}

/// The html content of one feed entry: the actor's avatar linking to the
/// fork.
pub open spec fn entry_content_text(e: &Event) -> Seq<char> {
    "<a href=\""@ + e.payload.forkee->Some_0.html_url@ + "\"><img src=\""@
        + e.actor.avatar_url@ + "\"/></a>"@
}

/// Build the title of one feed entry.
pub fn entry_title(e: &Event) -> (r: String)
    ensures
        r@ == entry_title_text(e),
{
    let mut out = String::from_str(e.actor.display_login.as_str());
    out.append(" forked ");
    out.append(e.repo.name.as_str());
    out
}

/// Build the author link of one feed entry.
pub fn entry_author_uri(e: &Event) -> (r: String)
    ensures
        r@ == entry_author_uri_text(e),
{
    let mut out = String::from_str("https://github.com/");
    out.append(e.actor.display_login.as_str());
    out
}

/// Build the summary of one feed entry.
pub fn entry_summary(e: &Event) -> (r: String)
    requires
        e.payload.forkee is Some,
    ensures
        r@ == entry_summary_text(e),
{
    let mut out = String::from_str(e.repo.name.as_str());
    out.append(" was forked by ");
    out.append(e.actor.display_login.as_str());
    out.append(" at ");
    match &e.payload.forkee {
        Option::Some(f) => {
            out.append(f.full_name.as_str());
            out.append(".");
            out
        },
        Option::None => vstd::pervasive::unreached(),
    }
}

/// Build the html content of one feed entry.
pub fn entry_content(e: &Event) -> (r: String)
    requires
        e.payload.forkee is Some,
    ensures
        r@ == entry_content_text(e),
{
    let mut out = String::from_str("<a href=\"");
    match &e.payload.forkee {
        Option::Some(f) => {
            out.append(f.html_url.as_str());
            out.append("\"><img src=\"");
            out.append(e.actor.avatar_url.as_str());
            out.append("\"/></a>");
            out
        },
        Option::None => vstd::pervasive::unreached(),
    }
}

} // verus!
