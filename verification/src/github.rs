//! Release metadata: which tags of a release list are offered, and what is
//! reported once a list has been fetched or has failed to come.
//!
//! Fetching is the caller's business. It hands over the tags in the order
//! in which the release list gave them, newest first.

use crate::compiler::Project;
use crate::messages::{message_views, AppMessage, MessageView};
use crate::text::{
    contains, contains_text, decimal, decimal_string, duplicate_strings, leading, views,
};
use vstd::prelude::*;
use vstd::string::*;

verus! {

/// How many versions are offered at most.
pub const MAX_VERSIONS: usize = 10;

/// The release list of the first project.
pub const BITCOIN_API: &'static str = "https://api.github.com/repos/bitcoin/bitcoin/releases";

/// The release list of the second project.
pub const ELECTRS_API: &'static str = "https://api.github.com/repos/romanz/electrs/releases";

/// The text that `str::to_lowercase` makes of a text.
pub uninterp spec fn lowercased(s: Seq<char>) -> Seq<char>;

/// Whether a lower-case tag marks a release candidate.
pub open spec fn marks_candidate(lowered: Seq<char>) -> bool {
    contains_text(lowered, "rc"@)
}

/// Whether a tag names a pre-release: in lower case it holds `rc`.
pub open spec fn is_prerelease(tag: Seq<char>) -> bool {
    marks_candidate(lowercased(tag))
}

/// The tags that name no pre-release, in the order given.
pub open spec fn stable_tags(tags: Seq<Seq<char>>) -> Seq<Seq<char>>
    decreases tags.len(),
{
    if tags.len() == 0 {
        Seq::empty()
    } else if is_prerelease(tags.last()) {
        stable_tags(tags.drop_last())
    } else {
        stable_tags(tags.drop_last()).push(tags.last())
    }
}

/// The versions on offer: the first `max` stable tags.
pub open spec fn stable_versions(tags: Seq<Seq<char>>, max: nat) -> Seq<Seq<char>> {
    leading(stable_tags(tags), max)
}

/// The name of a project in reports.
pub open spec fn display_name(project: Project) -> Seq<char> {
    match project {
        Project::Bitcoin => "Bitcoin"@,
        Project::Electrs => "Electrs"@,
    }
}

/// What is reported of a release list that came.
pub open spec fn loaded_report(project: Project, versions: Seq<Seq<char>>) -> Seq<MessageView> {
    seq![
        MessageView::Log(
            "Loaded "@ + decimal(versions.len()) + " "@ + display_name(project) + " versions\n"@,
        ),
        match project {
            Project::Bitcoin => MessageView::BitcoinVersionsLoaded(versions),
            Project::Electrs => MessageView::ElectrsVersionsLoaded(versions),
        },
    ]
}

/// What is reported of a release list that did not come. The notice is
/// no error: the task goes on without the list.
pub open spec fn unavailable_report(project: Project, reason: Seq<char>) -> Seq<MessageView> {
    seq![
        MessageView::Log(
            "Could not fetch "@ + display_name(project) + " versions: "@ + reason + "\n"@,
        ),
        MessageView::ShowDialog {
            title: "Network Error"@,
            message: "Could not fetch "@ + display_name(project)
                + " versions.\nCheck your internet connection."@,
            is_error: false,
        },
    ]
}

/// The text in lower case.
///
/// Trusted: wraps `str::to_lowercase`, whose result is named, not described.
#[verifier::external_body]
fn lowercase(s: &str) -> (lowered: String)
    ensures
        lowered@ == lowercased(s@),
{
    s.to_lowercase()
}

/// Whether a tag, given in lower case, marks a release candidate.
pub fn lowered_tag_marks_candidate(lowered: &str) -> (b: bool)
    ensures
        b == marks_candidate(lowered@),
{
    contains(lowered, "rc")
}

/// Whether a tag names a pre-release.
pub fn is_prerelease_tag(tag: &str) -> (b: bool)
    ensures
        b == is_prerelease(tag@),
{
    let lowered = lowercase(tag);
    lowered_tag_marks_candidate(lowered.as_str())
}

/// The versions on offer among the tags of a release list: the stable
/// ones, in the order given, `max` of them at most.
pub fn select_stable_versions(tags: &Vec<String>, max: usize) -> (versions: Vec<String>)
    ensures
        views(versions@) == stable_versions(views(tags@), max as nat),
{
    let mut versions: Vec<String> = Vec::new();
    let mut i: usize = 0;
    assert(views(versions@) =~= stable_versions(views(tags@).take(0), max as nat));
    while i < tags.len()
        invariant
            i <= tags.len(),
            views(versions@) == stable_versions(views(tags@).take(i as int), max as nat),
        decreases tags.len() - i,
    {
        let ghost now = views(tags@).take(i + 1);
        let ghost kept = stable_tags(views(tags@).take(i as int));
        assert(now.drop_last() =~= views(tags@).take(i as int));
        assert(now.last() == tags@[i as int]@);
        let ghost before = views(versions@);
        if !is_prerelease_tag(tags[i].as_str()) {
            if versions.len() < max {
                versions.push(tags[i].clone());
                assert(views(versions@) =~= before.push(tags@[i as int]@));
                assert(views(versions@) =~= leading(kept.push(tags@[i as int]@), max as nat));
            } else {
                assert(before =~= leading(kept.push(tags@[i as int]@), max as nat));
            }
        }
        i += 1;
    }
    assert(views(tags@).take(tags.len() as int) =~= views(tags@));
    versions
}

/// Where the release list of a project is fetched from.
pub fn release_api(project: Project) -> (url: String)
    ensures
        url@ == match project {
            Project::Bitcoin => BITCOIN_API@,
            Project::Electrs => ELECTRS_API@,
        },
{
    match project {
        Project::Bitcoin => String::from_str(BITCOIN_API),
        Project::Electrs => String::from_str(ELECTRS_API),
    }
}

fn display(project: Project) -> (name: &'static str)
    ensures
        name@ == display_name(project),
{
    match project {
        Project::Bitcoin => "Bitcoin",
        Project::Electrs => "Electrs",
    }
}

/// What the observer hears of a fetch: the versions on offer among the
/// tags that came, or a notice that none came.
pub fn versions_report(project: Project, fetched: &Result<Vec<String>, String>) -> (messages: Vec<
    AppMessage,
>)
    ensures
        message_views(messages@) == match fetched {
            Ok(tags) => loaded_report(
                project,
                stable_versions(views(tags@), MAX_VERSIONS as nat),
            ),
            Err(reason) => unavailable_report(project, reason@),
        },
{
    let mut messages: Vec<AppMessage> = Vec::new();
    match fetched {
        Ok(tags) => {
            let versions = select_stable_versions(tags, MAX_VERSIONS);
            let mut line = String::from_str("Loaded ");
            line.append(decimal_string(versions.len() as u64).as_str());
            line.append(" ");
            line.append(display(project));
            line.append(" versions\n");
            messages.push(AppMessage::Log(line));
            let listed = duplicate_strings(&versions);
            messages.push(
                match project {
                    Project::Bitcoin => AppMessage::BitcoinVersionsLoaded(listed),
                    Project::Electrs => AppMessage::ElectrsVersionsLoaded(listed),
                },
            );
            assert(message_views(messages@) =~= loaded_report(
                project,
                stable_versions(views(tags@), MAX_VERSIONS as nat),
            ));
        },
        Err(reason) => {
            let mut line = String::from_str("Could not fetch ");
            line.append(display(project));
            line.append(" versions: ");
            line.append(reason.as_str());
            line.append("\n");
            let mut notice = String::from_str("Could not fetch ");
            notice.append(display(project));
            notice.append(" versions.\nCheck your internet connection.");
            messages.push(AppMessage::Log(line));
            messages.push(
                AppMessage::ShowDialog {
                    title: String::from_str("Network Error"),
                    message: notice,
                    is_error: false,
                },
            );
            assert(message_views(messages@) =~= unavailable_report(project, reason@));
        },
    }
    messages
}

/// The stable tags are tags of the list, none of them a pre-release, and
/// every tag of the list that is no pre-release is among them.
pub proof fn lemma_stable_tags(tags: Seq<Seq<char>>)
    ensures
        stable_tags(tags).len() <= tags.len(),
        forall|x: Seq<char>|
            #![trigger stable_tags(tags).contains(x)]
            #![trigger tags.contains(x)]
            stable_tags(tags).contains(x) <==> (tags.contains(x) && !is_prerelease(x)),
    decreases tags.len(),
{
    let kept = stable_tags(tags);
    if tags.len() > 0 {
        let init = tags.drop_last();
        let before = stable_tags(init);
        let last = tags.last();
        lemma_stable_tags(init);
        assert forall|x: Seq<char>| tags.contains(x) <==> (init.contains(x) || x == last) by {
            if tags.contains(x) {
                let i = choose|i: int| 0 <= i < tags.len() && tags[i] == x;
                if i < init.len() {
                    assert(init[i] == x);
                }
            }
            if init.contains(x) {
                let i = choose|i: int| 0 <= i < init.len() && init[i] == x;
                assert(tags[i] == x);
            }
            if x == last {
                assert(tags[tags.len() - 1] == x);
            }
        }
        if !is_prerelease(last) {
            assert forall|x: Seq<char>| kept.contains(x) <==> (before.contains(x) || x == last) by {
                if kept.contains(x) {
                    let i = choose|i: int| 0 <= i < kept.len() && kept[i] == x;
                    if i < before.len() {
                        assert(before[i] == x);
                    }
                }
                if before.contains(x) {
                    let i = choose|i: int| 0 <= i < before.len() && before[i] == x;
                    assert(kept[i] == x);
                }
                if x == last {
                    assert(kept[before.len() as int] == x);
                }
            }
        }
        assert forall|x: Seq<char>|
            #![trigger kept.contains(x)]
            #![trigger tags.contains(x)]
            kept.contains(x) <==> (tags.contains(x) && !is_prerelease(x)) by {
            assert(before.contains(x) <==> (init.contains(x) && !is_prerelease(x)));
        }
    } else {
        assert forall|x: Seq<char>|
            #![trigger kept.contains(x)]
            #![trigger tags.contains(x)]
            kept.contains(x) <==> (tags.contains(x) && !is_prerelease(x)) by {}
    }
}

/// The versions on offer are at most `max`, all of them stable tags of the
/// list, and they are the first of the stable tags in the order of the list.
pub proof fn lemma_stable_versions(tags: Seq<Seq<char>>, max: nat)
    ensures
        stable_versions(tags, max).len() <= max,
        stable_versions(tags, max).len() <= tags.len(),
        stable_versions(tags, max).is_prefix_of(stable_tags(tags)),
        forall|i: int|
            0 <= i < stable_versions(tags, max).len() ==> tags.contains(
                #[trigger] stable_versions(tags, max)[i],
            ) && !is_prerelease(stable_versions(tags, max)[i]),
{
    lemma_stable_tags(tags);
    let offered = stable_versions(tags, max);
    let kept = stable_tags(tags);
    assert forall|i: int| 0 <= i < offered.len() implies tags.contains(#[trigger] offered[i])
        && !is_prerelease(offered[i]) by {
        assert(offered[i] == kept[i]);
        assert(kept.contains(kept[i]));
        assert(tags.contains(kept[i]) && !is_prerelease(kept[i]));
    }
}

} // verus!
