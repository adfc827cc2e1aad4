//! The directory of the secrets.

use crate::configuration::ServicesConfiguration;
use crate::configuration;
use crate::docker::paths::join_path;
use crate::docker::paths;
use crate::init_kanidm_apisix::error::{InitErrorView, KanidmApisixError};
use crate::exec::ExecOutcomeView;
use crate::kanidm::operations;
use crate::kanidm::output;
use crate::kanidm::provision::ClientsView;
use crate::kanidm::provision;
use crate::secret_map::SecretMap;
use crate::secret_map;
use crate::text::{has_prefix, trim_text};
use crate::text;
use vstd::prelude::*;

verus! {

/// How many random bytes make a session secret.
pub const SESSION_SECRET_BYTES: usize = 32;

/// The digit of a value below sixteen.
pub open spec fn hex_digit(value: int) -> char {
    if value < 10 {
        ('0' as int + value) as char
    } else {
        ('a' as int + value - 10) as char
    }
}

/// Two digits for each byte.
pub open spec fn hex_text(bytes: Seq<u8>) -> Seq<char>
    decreases bytes.len(),
{
    if bytes.len() == 0 {
        Seq::empty()
    } else {
        hex_text(bytes.drop_last()).push(hex_digit(bytes.last() as int / 16)).push(
            hex_digit(bytes.last() as int % 16),
        )
    }
}

fn hex_char(value: u8) -> (digit: char)
    requires
        value < 16,
    ensures
        digit == hex_digit(value as int),
{
    if value < 10 {
        (48u8 + value) as char
    } else {
        (97u8 + (value - 10)) as char
    }
}

/// Writes bytes as small hexadecimal digits.
pub fn random_hex(bytes: &[u8]) -> (hex: String)
    ensures
        hex@ == hex_text(bytes@),
{
    let mut hex = String::new();
    let mut i: usize = 0;
    while i < bytes.len()
        invariant
            i <= bytes@.len(),
            hex@ == hex_text(bytes@.take(i as int)),
        decreases bytes@.len() - i,
    {
        assert(bytes@.take(i + 1).drop_last() =~= bytes@.take(i as int));
        hex.push(hex_char(bytes[i] / 16));
        hex.push(hex_char(bytes[i] % 16));
        i += 1;
    }
    assert(bytes@.take(i as int) =~= bytes@);
    hex
}

/// What there is of the session secret.
pub enum SessionSource {
    /// The contents of its file.
    Stored(String),
    /// There is no file; these bytes are random.
    Missing([u8; SESSION_SECRET_BYTES]),
}

/// The session secret, and whether it is new.
pub open spec fn session_of(source: SessionSource) -> (Seq<char>, bool) {
    match source {
        SessionSource::Stored(contents) => (text::trim(contents@), false),
        SessionSource::Missing(random) => (hex_text(random@), true),
    }
}

/// The file that a session secret asks to write: its path and what stands in it.
/// Only a new secret is written.
pub open spec fn session_file_of(dir: Seq<char>, session: (Seq<char>, bool)) -> Option<
    (Seq<char>, Seq<char>),
> {
    if session.1 {
        Some((paths::path_join(dir, "APISIX_SESSION_SECRET"@), session.0))
    } else {
        None
    }
}

/// The secrets that files hold, each under the name of its file.
pub open spec fn secrets_in(files: Seq<(Seq<char>, Seq<char>)>) -> Map<Seq<char>, Seq<char>>
    decreases files.len(),
{
    if files.len() == 0 {
        Map::empty()
    } else {
        secrets_in(files.drop_last()).insert(files.last().0, text::trim(files.last().1))
    }
}

/// The directory of the secrets.
pub struct SecretStore {
    dir: String,
}

impl SecretStore {
    /// The path of the directory.
    pub closed spec fn located(&self) -> Seq<char> {
        self.dir@
    }

    /// The store in a directory.
    pub fn new(dir: &str) -> (store: SecretStore)
        ensures
            store.located() == dir@,
    {
        SecretStore { dir: dir.to_owned() }
    }

    /// The path of a file of the store.
    pub fn path(&self, name: &str) -> (path: String)
        ensures
            path@ == paths::path_join(self.located(), name@),
    {
        join_path(&self.dir, name)
    }

    /// The path of the session secret.
    pub fn session_path(&self) -> (path: String)
        ensures
            path@ == paths::path_join(self.located(), "APISIX_SESSION_SECRET"@),
    {
        self.path("APISIX_SESSION_SECRET")
    }

    /// The path of the admin key.
    pub fn admin_key_path(&self) -> (path: String)
        ensures
            path@ == paths::path_join(self.located(), "APISIX_ADMIN_KEY"@),
    {
        self.path("APISIX_ADMIN_KEY")
    }

    /// The files that keep the secrets of the clients, and what stands in them,
    /// in the order in which they are written.
    pub fn write_client_secrets(&self, secrets: &SecretMap) -> (files: Vec<(String, String)>)
        ensures
            text::text_pairs(files@) == Seq::new(
                secrets.listed().len(),
                |i: int|
                    (paths::path_join(self.located(), secrets.listed()[i].0), secrets.listed()[i].1),
            ),
    {
        let pairs = secrets.all();
        let ghost listed = secrets.listed();
        let mut files: Vec<(String, String)> = Vec::new();
        let mut i: usize = 0;
        while i < pairs.len()
            invariant
                i <= pairs@.len(),
                listed == text::text_pairs(pairs@),
                files@.len() == i,
                forall|j: int|
                    0 <= j < i ==> (#[trigger] files@[j]).0@ == paths::path_join(
                        self.located(),
                        listed[j].0,
                    ) && files@[j].1@ == listed[j].1,
            decreases pairs@.len() - i,
        {
            files.push((self.path(&pairs[i].0), pairs[i].1.clone()));
            i += 1;
        }
        assert(text::text_pairs(files@) =~= Seq::new(
            listed.len(),
            |i: int| (paths::path_join(self.located(), listed[i].0), listed[i].1),
        ));
        files
    }

    /// Whether an entry of the directory is the secret of a client.
    pub fn is_client_secret(name: &str, is_file: bool) -> (yes: bool)
        ensures
            yes == (text::starts_with(name@, "OIDC_SECRET_"@) && is_file),
    {
        has_prefix(name, "OIDC_SECRET_") && is_file
    }

    /// The secrets of the clients, given the names and contents of their files.
    pub fn read_client_secrets(&self, files: &Vec<(String, String)>) -> (secrets: SecretMap)
        ensures
            secrets@ == secrets_in(text::text_pairs(files@)),
    {
        let ghost all = text::text_pairs(files@);
        let mut secrets = SecretMap::new();
        let mut i: usize = 0;
        assert(all.take(0) =~= Seq::empty());
        while i < files.len()
            invariant
                i <= files@.len(),
                all == text::text_pairs(files@),
                secrets@ == secrets_in(all.take(i as int)),
            decreases files@.len() - i,
        {
            assert(all.take(i + 1).drop_last() =~= all.take(i as int));
            assert(all.take(i + 1).last() == (files@[i as int].0@, files@[i as int].1@));
            secrets = secrets.insert(files[i].0.clone(), trim_text(&files[i].1));
            i += 1;
        }
        assert(all.take(i as int) =~= all);
        secrets
    }

    /// The session secret, and whether it is new. One that is there is kept.
    pub fn session_secret(&self, source: SessionSource) -> (secret: (String, bool))
        ensures
            (secret.0@, secret.1) == session_of(source),
    {
        match source {
            SessionSource::Stored(contents) => (trim_text(&contents), false),
            SessionSource::Missing(random) => (random_hex(random.as_slice()), true),
        }
    }

    /// The file that keeps the session secret, and what stands in it, where it
    /// is to be written: where the secret is new.
    pub fn write_session_secret(&self, secret: &str, created: bool) -> (file: Option<
        (String, String),
    >)
        ensures
            match file {
                Some((path, contents)) => session_file_of(self.located(), (secret@, created))
                    == Some((path@, contents@)),
                None => session_file_of(self.located(), (secret@, created)) is None,
            },
    {
        if created {
            Some((self.session_path(), secret.to_owned()))
        } else {
            None
        }
    }

    /// The admin key, given the contents of its file where there is one. A
    /// missing file and an empty one are the same to the operator.
    pub fn apisix_admin_key(&self, contents: Option<String>) -> (result: Result<
        String,
        KanidmApisixError,
    >)
        ensures
            match result {
                Ok(key) => contents matches Some(text) && key@ == text::trim(text@) && key@.len() > 0,
                Err(error) => {
                    &&& error@ == InitErrorView::MissingAdminKey {
                        path: paths::path_join(self.located(), "APISIX_ADMIN_KEY"@),
                    }
                    &&& contents matches Some(text) ==> text::trim(text@).len() == 0
                },
            },
    {
        match contents {
            None => Err(KanidmApisixError::MissingAdminKey { path: self.admin_key_path() }),
            Some(text) => {
                let key = trim_text(&text);
                if key.as_str().is_empty() {
                    Err(KanidmApisixError::MissingAdminKey { path: self.admin_key_path() })
                } else {
                    Ok(key)
                }
            },
        }
    }
}

// ---------------------------------------------------------------------------
// Laws of the secrets
// ---------------------------------------------------------------------------

/// Whether a text holds no white space.
spec fn unspaced(text: Seq<char>) -> bool {
    forall|i: int| 0 <= i < text.len() ==> !text::is_whitespace(#[trigger] text[i])
}

proof fn lemma_trim_unspaced(text: Seq<char>)
    requires
        unspaced(text),
    ensures
        text::trim(text) == text,
{
    if text.len() > 0 {
        assert(!text::is_whitespace(text[0]));
        assert(!text::is_whitespace(text[text.len() - 1]));
    }
}

proof fn lemma_hex_text(bytes: Seq<u8>)
    ensures
        hex_text(bytes).len() == 2 * bytes.len(),
        forall|i: int|
            0 <= i < hex_text(bytes).len() ==> ('0' <= #[trigger] hex_text(bytes)[i] <= '9' || 'a'
                <= hex_text(bytes)[i] <= 'f'),
    decreases bytes.len(),
{
    if bytes.len() > 0 {
        let init = bytes.drop_last();
        lemma_hex_text(init);
        let all = hex_text(bytes);
        assert forall|i: int| 0 <= i < all.len() implies ('0' <= #[trigger] all[i] <= '9' || 'a'
            <= all[i] <= 'f') by {
            if i < hex_text(init).len() {
                assert(all[i] == hex_text(init)[i]);
            }
        }
    }
}

/// Whether a character is a small hexadecimal digit.
pub open spec fn is_hex_digit(c: char) -> bool {
    '0' <= c <= '9' || 'a' <= c <= 'f'
}

/// The session secret survives. Where there is none, a new one is made, of 64
/// hexadecimal digits, and asked to be written as it stands. Given what was
/// written, the next run finds the same secret, does not take it for a new one
/// and asks to write nothing. In general a secret is new exactly where there was
/// no file.
pub proof fn session_secret_is_kept(
    dir: Seq<char>,
    random: [u8; SESSION_SECRET_BYTES],
    path: Seq<char>,
    contents: String,
)
    requires
        session_file_of(dir, session_of(SessionSource::Missing(random))) == Some(
            (path, contents@),
        ),
    ensures
        path == paths::path_join(dir, "APISIX_SESSION_SECRET"@),
        session_of(SessionSource::Missing(random)) == (contents@, true),
        contents@.len() == 64,
        forall|i: int| 0 <= i < contents@.len() ==> is_hex_digit(#[trigger] contents@[i]),
        session_of(SessionSource::Stored(contents)) == (contents@, false),
        session_file_of(dir, session_of(SessionSource::Stored(contents))) is None,
        forall|source: SessionSource| (#[trigger] session_of(source)).1 <==> source is Missing,
{
    lemma_hex_text(random@);
    assert(random@.len() == SESSION_SECRET_BYTES);
    assert forall|i: int| 0 <= i < contents@.len() implies is_hex_digit(
        #[trigger] contents@[i],
    ) by {
        assert(contents@[i] == hex_text(random@)[i]);
    }
    assert(unspaced(contents@)) by {
        assert forall|i: int| 0 <= i < contents@.len() implies !text::is_whitespace(
            #[trigger] contents@[i],
        ) by {
            assert(is_hex_digit(contents@[i]));
        }
    }
    lemma_trim_unspaced(contents@);
}

/// The secrets of the clients are read back as they were written: files that
/// hold each secret under its name give the same secrets again, whatever the
/// order in which they are found, as long as no secret begins or ends with white
/// space.
pub proof fn written_secrets_are_read_back(
    written: Seq<(Seq<char>, Seq<char>)>,
    found: Seq<(Seq<char>, Seq<char>)>,
)
    requires
        secret_map::sorted(written),
        found.to_multiset() == written.to_multiset(),
        forall|i: int|
            0 <= i < written.len() ==> text::trim((#[trigger] written[i]).1) == written[i].1,
    ensures
        secrets_in(found) == secret_map::pairs_map(written),
{
    secret_map::lemma_pairs_map(written);
    written.to_multiset_ensures();
    found.to_multiset_ensures();
    assert forall|i: int| 0 <= i < found.len() implies secret_map::pairs_map(written).contains_pair(
        (#[trigger] found[i]).0,
        found[i].1,
    ) && text::trim(found[i].1) == found[i].1 by {
        assert(found.contains(found[i]));
        assert(found.to_multiset().count(found[i]) > 0);
        assert(written.to_multiset().count(found[i]) > 0);
        assert(written.contains(found[i]));
        let k = choose|k: int| 0 <= k < written.len() && written[k] == found[i];
        assert(secret_map::pairs_map(written).contains_pair(written[k].0, written[k].1));
    }
    assert forall|key: Seq<char>| #[trigger]
        secret_map::pairs_map(written).contains_key(key) implies exists|i: int|
        0 <= i < found.len() && (#[trigger] found[i]).0 == key by {
        let k = choose|k: int| 0 <= k < written.len() && (#[trigger] written[k]).0 == key;
        assert(written.contains(written[k]));
        assert(written.to_multiset().count(written[k]) > 0);
        assert(found.contains(written[k]));
        let i = choose|i: int| 0 <= i < found.len() && found[i] == written[k];
        assert(found[i].0 == key);
    }
    lemma_secrets_in(found, secret_map::pairs_map(written));
    assert(secrets_in(found) =~= secret_map::pairs_map(written));
}

/// The secrets of the clients stand under names of their own: the name of each
/// is one that is looked for, and the session secret and the admin key are not
/// taken for one of them.
pub proof fn client_secrets_have_names_of_their_own(client_id: Seq<char>)
    ensures
        text::starts_with(configuration::secret_name(client_id), "OIDC_SECRET_"@),
        !text::starts_with("APISIX_SESSION_SECRET"@, "OIDC_SECRET_"@),
        !text::starts_with("APISIX_ADMIN_KEY"@, "OIDC_SECRET_"@),
{
    let prefix = "OIDC_SECRET_"@;
    assert(configuration::secret_name(client_id).take(prefix.len() as int) =~= prefix);
    reveal_strlit("OIDC_SECRET_");
    reveal_strlit("APISIX_SESSION_SECRET");
    reveal_strlit("APISIX_ADMIN_KEY");
    assert("APISIX_SESSION_SECRET"@.take(prefix.len() as int)[0] != prefix[0]);
    assert("APISIX_ADMIN_KEY"@.take(prefix.len() as int)[0] != prefix[0]);
}

/// Whether secrets come back from the directory as they are put there: each has
/// a name that is looked for, and neither begins nor ends with white space.
pub open spec fn storable(secrets: Map<Seq<char>, Seq<char>>) -> bool {
    forall|name: Seq<char>| #[trigger]
        secrets.contains_key(name) ==> text::starts_with(name, "OIDC_SECRET_"@) && text::trim(
            secrets[name],
        ) == secrets[name]
}

/// The secrets that the provisioning of clients collects come back from the
/// directory, whatever kanidm prints: it begins with none, and each step keeps
/// them so.
pub proof fn provisioned_secrets_are_storable(
    account: Seq<char>,
    services: ServicesConfiguration,
    state: ClientsView,
    result: ExecOutcomeView,
)
    requires
        storable(state.secrets),
    ensures
        storable(provision::clients_enter(account, services, 0, Map::empty()).0.secrets),
        storable(provision::clients_next(account, services, state, result).0.secrets),
{
    let client_id = services.services@[state.index].client_id@;
    let printed = operations::run_next(state.run, result).0.printed.last();
    client_secrets_have_names_of_their_own(client_id);
    output::secrets_hold_no_whitespace(client_id, printed);
    if let Ok(secret) = output::secret_shown(client_id, printed) {
        lemma_trim_unspaced(secret);
    }
}

proof fn lemma_secrets_in(
    found: Seq<(Seq<char>, Seq<char>)>,
    wanted: Map<Seq<char>, Seq<char>>,
)
    requires
        forall|i: int|
            0 <= i < found.len() ==> wanted.contains_pair((#[trigger] found[i]).0, found[i].1)
                && text::trim(found[i].1) == found[i].1,
    ensures
        forall|key: Seq<char>| #[trigger]
            secrets_in(found).contains_key(key) <==> exists|i: int|
                0 <= i < found.len() && (#[trigger] found[i]).0 == key,
        forall|key: Seq<char>| #[trigger]
            secrets_in(found).contains_key(key) ==> secrets_in(found)[key] == wanted[key]
                && wanted.contains_key(key),
    decreases found.len(),
{
    if found.len() > 0 {
        let init = found.drop_last();
        assert forall|i: int| 0 <= i < init.len() implies wanted.contains_pair(
            (#[trigger] init[i]).0,
            init[i].1,
        ) && text::trim(init[i].1) == init[i].1 by {
            assert(init[i] == found[i]);
        }
        lemma_secrets_in(init, wanted);
        let last = found[found.len() - 1];
        assert(wanted.contains_pair(last.0, last.1) && text::trim(last.1) == last.1);
        assert forall|key: Seq<char>| #[trigger]
            secrets_in(found).contains_key(key) <==> exists|i: int|
                0 <= i < found.len() && (#[trigger] found[i]).0 == key by {
            if secrets_in(found).contains_key(key) {
                if key == last.0 {
                    assert(found[found.len() - 1].0 == key);
                } else {
                    assert(secrets_in(init).contains_key(key));
                    let i = choose|i: int| 0 <= i < init.len() && (#[trigger] init[i]).0 == key;
                    assert(found[i].0 == key);
                }
            }
            if exists|i: int| 0 <= i < found.len() && (#[trigger] found[i]).0 == key {
                let i = choose|i: int| 0 <= i < found.len() && (#[trigger] found[i]).0 == key;
                if i < init.len() {
                    assert(init[i].0 == key);
                    assert(secrets_in(init).contains_key(key));
                }
            }
        }
        assert forall|key: Seq<char>| #[trigger]
            secrets_in(found).contains_key(key) implies secrets_in(found)[key] == wanted[key]
            && wanted.contains_key(key) by {
            if key != last.0 {
                assert(secrets_in(init).contains_key(key));
            }
        }
    }
}

/// What a hexadecimal digit stands for, as a number.
pub open spec fn hex_value(c: char) -> int {
    if c <= '9' {
        c as int - '0' as int
    } else {
        c as int - 'a' as int + 10
    }
}

/// Every byte is written as two hexadecimal digits, the higher one first, and can
/// be told from them.
pub proof fn bytes_are_told_by_their_digits(bytes: Seq<u8>, i: int)
    ensures
        hex_text(bytes).len() == 2 * bytes.len(),
        0 <= i < bytes.len() ==> is_hex_digit(hex_text(bytes)[2 * i]) && is_hex_digit(
            hex_text(bytes)[2 * i + 1],
        ) && 16 * hex_value(hex_text(bytes)[2 * i]) + hex_value(hex_text(bytes)[2 * i + 1])
            == bytes[i],
    decreases bytes.len(),
{
    if bytes.len() > 0 {
        bytes_are_told_by_their_digits(bytes.drop_last(), i);
    }
}

/// A secret is read from the file of its name, without the white space around it;
/// no other secret changes.
pub proof fn secret_is_read_from_its_file(
    files: Seq<(Seq<char>, Seq<char>)>,
    name: Seq<char>,
    front: Seq<char>,
    secret: Seq<char>,
    back: Seq<char>,
    other: Seq<char>,
)
    requires
        forall|i: int| 0 <= i < front.len() ==> text::is_whitespace(#[trigger] front[i]),
        forall|i: int| 0 <= i < back.len() ==> text::is_whitespace(#[trigger] back[i]),
        secret.len() > 0 ==> !text::is_whitespace(secret[0]) && !text::is_whitespace(
            secret.last(),
        ),
    ensures
        secrets_in(Seq::empty()) == Map::<Seq<char>, Seq<char>>::empty(),
        ({
            let after = secrets_in(files.push((name, front + secret + back)));
            &&& after.contains_pair(name, secret)
            &&& other != name ==> (after.contains_key(other) <==> secrets_in(files).contains_key(
                other,
            ))
            &&& other != name ==> after[other] == secrets_in(files)[other]
        }),
{
    text::white_space_around_goes(front, secret, back);
    assert(files.push((name, front + secret + back)).drop_last() =~= files);
}

/// A session secret that is stored is taken from its file, without the white space
/// around it, and one that is missing is made of the bytes that were drawn.
pub proof fn session_secret_is_what_is_stored_or_drawn(
    contents: String,
    secret: Seq<char>,
    front: Seq<char>,
    back: Seq<char>,
    random: [u8; 32],
    dir: Seq<char>,
)
    requires
        contents@ == front + secret + back,
        forall|i: int| 0 <= i < front.len() ==> text::is_whitespace(#[trigger] front[i]),
        forall|i: int| 0 <= i < back.len() ==> text::is_whitespace(#[trigger] back[i]),
        secret.len() > 0 ==> !text::is_whitespace(secret[0]) && !text::is_whitespace(
            secret.last(),
        ),
    ensures
        session_of(SessionSource::Stored(contents)) == (secret, false),
        session_of(SessionSource::Missing(random)) == (hex_text(random@), true),
        session_file_of(dir, (secret, true)) == Some(
            (paths::path_join(dir, "APISIX_SESSION_SECRET"@), secret),
        ),
        session_file_of(dir, (secret, false)) is None,
{
    text::white_space_around_goes(front, secret, back);
}

} // verus!
