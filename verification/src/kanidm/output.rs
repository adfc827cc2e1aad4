//! What the kanidm command prints.

use crate::exec::{Output, OutputView};
use crate::kanidm::error::{KanidmError, KanidmErrorView};
use crate::text::{
    cat2, cat3, char_vec, find_text, lines_of, remove_whitespace, same,
    split_text_once, trim_both_text, trim_text, word_at,
};
use crate::text;
use vstd::prelude::*;

verus! {

/// Whether a line of the output says that an entry has the given name.
pub open spec fn names_entry(line: Seq<char>, name: Seq<char>) -> bool {
    text::trim(line) == "name: "@ + name
}

/// Whether the command found the entry. It succeeds even where nothing matches,
/// so it is the entry's `name:` line that decides.
pub open spec fn shows_entry(output: OutputView, name: Seq<char>) -> bool {
    output.code == 0 && exists|i: int|
        0 <= i < text::lines(output.stdout).len() && names_entry(#[trigger] text::lines(output.stdout)[i], name)
}

/// The member that a line of the output names: the part before the `@` of a
/// quoted identifier. An unquoted line names none.
pub open spec fn member_of(line: Seq<char>) -> Option<Seq<char>> {
    let kept = text::trim(line);
    if kept.len() == 0 || kept[0] != '"' {
        None
    } else {
        let quoted = text::trim_char(kept, '"');
        let local = match text::split_once(quoted, '@') {
            Some((before, _)) => before,
            None => quoted,
        };
        if local.len() == 0 {
            None
        } else {
            Some(local)
        }
    }
}

/// The members that lines of the output name, in order.
pub open spec fn members_in(found: Seq<Seq<char>>) -> Seq<Seq<char>>
    decreases found.len(),
{
    if found.len() == 0 {
        Seq::empty()
    } else {
        let before = members_in(found.drop_last());
        match member_of(found.last()) {
            Some(member) => before.push(member),
            None => before,
        }
    }
}

/// The members of a group. Where the command fails there are none.
pub open spec fn members_shown(output: OutputView) -> Seq<Seq<char>> {
    if output.code == 0 {
        members_in(text::lines(output.stdout))
    } else {
        Seq::empty()
    }
}

/// Whether the command found the entry.
pub fn found_entry(output: &Output, name: &str) -> (yes: bool)
    ensures
        yes == shows_entry(output@, name@),
{
    if !output.success() {
        return false;
    }
    let needle = cat2("name: ", name);
    let found = lines_of(&output.stdout);
    let ghost all = text::lines(output.stdout@);
    let mut i: usize = 0;
    while i < found.len()
        invariant
            i <= found@.len(),
            all == text::texts(found@),
            all == text::lines(output@.stdout),
            output.code == 0,
            needle@ == "name: "@ + name@,
            forall|j: int| 0 <= j < i ==> !names_entry(#[trigger] all[j], name@),
        decreases found@.len() - i,
    {
        if same(&trim_text(&found[i]), &needle) {
            assert(names_entry(all[i as int], name@));
            return true;
        }
        i += 1;
    }
    false
}

/// The members of a group.
pub fn group_members(output: &Output) -> (members: Vec<String>)
    ensures
        text::texts(members@) == members_shown(output@),
{
    let mut members: Vec<String> = Vec::new();
    assert(text::texts(members@) =~= Seq::empty());
    if !output.success() {
        return members;
    }
    let found = lines_of(&output.stdout);
    let ghost all = text::texts(found@);
    let mut i: usize = 0;
    while i < found.len()
        invariant
            i <= found@.len(),
            all == text::texts(found@),
            text::texts(members@) == members_in(all.take(i as int)),
        decreases found@.len() - i,
    {
        assert(all.take(i + 1).drop_last() =~= all.take(i as int));
        assert(all.take(i + 1).last() == found@[i as int]@);
        let kept = trim_text(&found[i]);
        let chars = char_vec(&kept);
        let ghost before = text::texts(members@);
        if chars.len() > 0 && chars[0] == '"' {
            let quoted = trim_both_text(&kept, '"');
            let local = match split_text_once(&quoted, '@') {
                Some((before, _)) => before,
                None => quoted,
            };
            if !local.as_str().is_empty() {
                let ghost member = local@;
                members.push(local);
                assert(text::texts(members@) =~= before.push(member));
            }
        }
        i += 1;
    }
    assert(all.take(i as int) =~= all);
    members
}

/// The address at which a person sets their credentials: the token that the
/// command printed, on the public origin. Where the command printed no link, it
/// is what it did print.
pub open spec fn reset_address(origin: Seq<char>, stdout: Seq<char>) -> Seq<char> {
    match text::first_occurrence(stdout, "/ui/reset?token="@) {
        Some(at) => origin + "/ui/reset?token="@ + text::first_word(
            stdout.skip(at + "/ui/reset?token="@.len()),
        ),
        None => text::trim(stdout),
    }
}

/// The address at which a person sets their credentials.
pub fn reset_url(origin: &str, stdout: &str) -> (url: String)
    ensures
        url@ == reset_address(origin@, stdout@),
{
    match find_text(stdout, "/ui/reset?token=") {
        Some(at) => {
            let chars = char_vec(stdout);
            let total: usize = chars.len();
            let marker: usize = char_vec("/ui/reset?token=").len();
            let token = word_at(&chars, at + marker);
            cat3(origin, "/ui/reset?token=", &token)
        },
        None => trim_text(stdout),
    }
}

/// The secret of a client: what the command printed, without white space. It is
/// not empty.
pub open spec fn secret_shown(client_id: Seq<char>, stdout: Seq<char>) -> Result<
    Seq<char>,
    KanidmErrorView,
> {
    let secret = text::without_whitespace(stdout);
    if secret.len() == 0 {
        Err(
            KanidmErrorView::Other("empty basic secret returned for '"@ + client_id + "'"@),
        )
    } else {
        Ok(secret)
    }
}

/// The secret of a client.
pub fn read_secret(client_id: &str, stdout: &str) -> (result: Result<String, KanidmError>)
    ensures
        match result {
            Ok(secret) => secret_shown(client_id@, stdout@) == Ok::<Seq<char>, KanidmErrorView>(
                secret@,
            ),
            Err(error) => secret_shown(client_id@, stdout@) == Err::<Seq<char>, KanidmErrorView>(
                error@,
            ),
        },
{
    let secret = remove_whitespace(stdout);
    if secret.as_str().is_empty() {
        Err(KanidmError::Other(cat3("empty basic secret returned for '", client_id, "'")))
    } else {
        Ok(secret)
    }
}

/// A secret that was read holds no white space.
pub proof fn secrets_hold_no_whitespace(client_id: Seq<char>, stdout: Seq<char>)
    ensures
        secret_shown(client_id, stdout) matches Ok(secret) ==> secret.len() > 0 && forall|i: int|
            0 <= i < secret.len() ==> !text::is_whitespace(#[trigger] secret[i]),
{
    let keep = |c: char| !text::is_whitespace(c);
    let secret = text::without_whitespace(stdout);
    assert forall|i: int| 0 <= i < secret.len() implies !text::is_whitespace(#[trigger] secret[i]) by {
        stdout.lemma_filter_pred(keep, i);
        assert(keep(stdout.filter(keep)[i]));
    }
}

/// An entry is shown line by line: by a line that is its name, in a command that
/// succeeded, and by nothing else.
pub proof fn entry_is_shown_by_its_line(
    code: i64,
    stderr: Seq<char>,
    line: Seq<char>,
    rest: Seq<char>,
    name: Seq<char>,
)
    requires
        !line.contains('\n'),
    ensures
        ({
            let kept = if line.len() > 0 && line.last() == '\r' {
                line.drop_last()
            } else {
                line
            };
            let whole = OutputView { code, stdout: line + seq!['\n'] + rest, stderr };
            let alone = OutputView { code, stdout: line, stderr };
            let after = OutputView { code, stdout: rest, stderr };
            &&& shows_entry(whole, name) <==> code == 0 && (text::trim(kept) == "name: "@ + name
                || shows_entry(after, name))
            &&& shows_entry(alone, name) <==> code == 0 && text::trim(line) == "name: "@ + name
        }),
{
    reveal_strlit("name: ");
    text::lines_follow_each_other(line, rest);
    let kept = if line.len() > 0 && line.last() == '\r' {
        line.drop_last()
    } else {
        line
    };
    let whole = OutputView { code, stdout: line + seq!['\n'] + rest, stderr };
    let alone = OutputView { code, stdout: line, stderr };
    let after = OutputView { code, stdout: rest, stderr };
    let all = text::lines(whole.stdout);
    let tail = text::lines(rest);
    assert(all[0] == kept);
    if shows_entry(whole, name) {
        let i = choose|i: int| 0 <= i < all.len() && names_entry(#[trigger] all[i], name);
        if i > 0 {
            assert(tail[i - 1] == all[i]);
            assert(after.stdout == rest);
            assert(0 <= i - 1 < text::lines(after.stdout).len());
            assert(names_entry(text::lines(after.stdout)[i - 1], name));
            assert(shows_entry(after, name));
        } else {
            assert(text::trim(kept) == "name: "@ + name);
        }
    }
    if code == 0 && text::trim(kept) == "name: "@ + name {
        assert(names_entry(all[0], name));
    }
    if shows_entry(after, name) {
        let i = choose|i: int| 0 <= i < tail.len() && names_entry(#[trigger] tail[i], name);
        assert(all[i + 1] == tail[i]);
        assert(names_entry(all[i + 1], name));
    }
    if shows_entry(alone, name) {
        let i = choose|i: int|
            0 <= i < text::lines(line).len() && names_entry(#[trigger] text::lines(line)[i], name);
        assert(text::lines(line)[i] == line);
        assert(text::trim(line) == "name: "@ + name);
    }
    if code == 0 && text::trim(line) == "name: "@ + name {
        if line.len() == 0 {
            let nothing = Seq::<char>::empty();
            text::white_space_around_goes(nothing, nothing, nothing);
            assert(nothing + nothing + nothing =~= line);
            assert(("name: "@ + name).len() > 0);
        }
        assert(text::lines(alone.stdout).len() == 1);
        assert(names_entry(text::lines(alone.stdout)[0], name));
        assert(shows_entry(alone, name));
    }
}

/// The members of a group are read line by line, in order, from a command that
/// succeeded: what stands between quotes, up to the at sign.
pub proof fn members_are_read_line_by_line(
    code: i64,
    stderr: Seq<char>,
    line: Seq<char>,
    rest: Seq<char>,
)
    requires
        !line.contains('\n'),
    ensures
        ({
            let kept = if line.len() > 0 && line.last() == '\r' {
                line.drop_last()
            } else {
                line
            };
            let whole = OutputView { code, stdout: line + seq!['\n'] + rest, stderr };
            let after = OutputView { code, stdout: rest, stderr };
            &&& code != 0 ==> members_shown(whole).len() == 0
            &&& code == 0 ==> members_shown(whole) == (match member_of(kept) {
                Some(member) => seq![member],
                None => Seq::empty(),
            }) + members_shown(after)
        }),
{
    text::lines_follow_each_other(line, rest);
    let kept = if line.len() > 0 && line.last() == '\r' {
        line.drop_last()
    } else {
        line
    };
    let one = seq![kept];
    lemma_members_append(one, text::lines(rest));
    assert(one.drop_last() =~= Seq::empty());
    assert(members_in(one.drop_last()) =~= Seq::empty());
    assert(members_in(one) =~= (match member_of(kept) {
        Some(member) => seq![member],
        None => Seq::empty(),
    }));
}

proof fn lemma_members_append(first: Seq<Seq<char>>, second: Seq<Seq<char>>)
    ensures
        members_in(first + second) == members_in(first) + members_in(second),
    decreases second.len(),
{
    if second.len() == 0 {
        assert(first + second =~= first);
        assert(members_in(first) + members_in(second) =~= members_in(first));
    } else {
        assert((first + second).drop_last() =~= first + second.drop_last());
        lemma_members_append(first, second.drop_last());
        assert(members_in(first + second) =~= members_in(first) + members_in(second));
    }
}

/// A line in quotes names a member by what stands before the at sign; a line
/// without quotes names nobody.
pub proof fn quoted_line_names_a_member(
    front: Seq<char>,
    name: Seq<char>,
    realm: Seq<char>,
    back: Seq<char>,
)
    requires
        forall|i: int| 0 <= i < front.len() ==> text::is_whitespace(#[trigger] front[i]),
        forall|i: int| 0 <= i < back.len() ==> text::is_whitespace(#[trigger] back[i]),
        name.len() > 0,
        !name.contains('@'),
        !name.contains('"'),
        realm.len() > 0,
        realm.last() != '"',
    ensures
        member_of(front + seq!['"'] + name + seq!['@'] + realm + seq!['"'] + back) == Some(name),
        member_of(front + seq!['"'] + name + seq!['"'] + back) == Some(name),
        !text::is_whitespace(name[0]) ==> member_of(front + name + back) is None,
{
    assert(name.contains(name[0]));
    assert(name.contains(name.last()));
    let address = name + seq!['@'] + realm;
    let quoted = seq!['"'] + address + seq!['"'];
    assert(front + seq!['"'] + name + seq!['@'] + realm + seq!['"'] + back =~= front + quoted
        + back);
    text::white_space_around_goes(front, quoted, back);
    assert(address[0] == name[0]);
    assert(address.last() == realm.last());
    text::marks_around_go(address, '"');
    text::parts_are_told_apart(name, realm, '@');
    let short = seq!['"'] + name + seq!['"'];
    assert(front + seq!['"'] + name + seq!['"'] + back =~= front + short + back);
    text::white_space_around_goes(front, short, back);
    text::marks_around_go(name, '"');
    text::whole_text_is_not_cut(name, '@');
    if !text::is_whitespace(name[0]) {
        let rest = name.skip(1) + back;
        assert(front + name + back =~= front + seq![name[0]] + rest);
        text::first_mark_stays_first(front, name[0], rest);
    }
}

/// A reset link leads to kanidm: the token that was printed, up to the next white
/// space, behind the origin. Without a token the output is passed on.
pub proof fn reset_link_leads_to_the_origin(
    origin: Seq<char>,
    front: Seq<char>,
    token: Seq<char>,
    rest: Seq<char>,
)
    requires
        token.len() > 0,
        forall|i: int| 0 <= i < token.len() ==> !text::is_whitespace(#[trigger] token[i]),
        rest.len() > 0 ==> text::is_whitespace(rest[0]),
        forall|j: int|
            0 <= j < front.len() ==> !(#[trigger] text::occurs_at(
                front + "/ui/reset?token="@ + token + rest,
                "/ui/reset?token="@,
                j,
            )),
    ensures
        reset_address(origin, front + "/ui/reset?token="@ + token + rest) == origin
            + "/ui/reset?token="@ + token,
{
    let marker = "/ui/reset?token="@;
    let stdout = front + marker + token + rest;
    text::lemma_first_occurrence(stdout, marker);
    assert(stdout.subrange(front.len() as int, (front.len() + marker.len()) as int) =~= marker);
    assert(text::occurs_at(stdout, marker, front.len() as int));
    let at = text::first_occurrence(stdout, marker);
    assert(at == Some(front.len() as int));
    assert(stdout.skip((front.len() + marker.len()) as int) =~= token + rest);
    text::words_follow_each_other(Seq::empty(), token, rest);
}

/// Without a token the output is passed on, without the white space around it.
pub proof fn output_without_a_token_is_passed_on(origin: Seq<char>, stdout: Seq<char>)
    requires
        forall|j: int| !(#[trigger] text::occurs_at(stdout, "/ui/reset?token="@, j)),
    ensures
        reset_address(origin, stdout) == text::trim(stdout),
{
    text::lemma_first_occurrence(stdout, "/ui/reset?token="@);
}

/// A secret is what kanidm printed, without the white space: all the rest, in
/// order. Nothing but white space is no secret.
pub proof fn secret_is_what_was_printed(
    client_id: Seq<char>,
    front: Seq<char>,
    secret: Seq<char>,
    back: Seq<char>,
)
    requires
        forall|i: int| 0 <= i < front.len() ==> text::is_whitespace(#[trigger] front[i]),
        forall|i: int| 0 <= i < back.len() ==> text::is_whitespace(#[trigger] back[i]),
        forall|i: int| 0 <= i < secret.len() ==> !text::is_whitespace(#[trigger] secret[i]),
    ensures
        secret.len() > 0 ==> secret_shown(client_id, front + secret + back) == Ok::<
            Seq<char>,
            KanidmErrorView,
        >(secret),
        secret_shown(client_id, front) == Err::<Seq<char>, KanidmErrorView>(
            KanidmErrorView::Other("empty basic secret returned for '"@ + client_id + "'"@),
        ),
{
    text::only_white_space_is_removed(front + secret, back);
    text::only_white_space_is_removed(front, secret);
    text::only_white_space_is_removed(secret, back);
    text::only_white_space_is_removed(back, back);
    assert(text::without_whitespace(front + secret + back) =~= secret);
}

} // verus!
