//! The command that creates a file, and the order in which it is carried
//! out: authorization, the file's name, the walk to its directory, the
//! metadata, and the creation itself.
//!
//! The directory tree and the files live in a storage service that only the
//! caller can reach. Carrying out a command is therefore a conversation:
//! [`CreateFile::execute`] and the steps after it say what the caller has to
//! ask of the service next, take the answer, and decide how to go on, until
//! the command is done. `H` is the service's handle for a directory and `F`
//! its account of a failure.

use crate::error::ActionError;
use crate::error::ActionErrorView;
use crate::gate::check;
use crate::gate::permitted;
use crate::metadata::base64_decoding;
use crate::metadata::decode;
use crate::metadata::DecodeError;
use crate::path::file_name;
use crate::path::file_name_of;
use crate::path::segments_of;
use crate::path::tokenise_path;
use crate::resolver::lemma_driven_is_resolved;
use crate::resolver::lemma_stops_at_first_missing;
use crate::resolver::lookups;
use crate::resolver::resolve;
use crate::resolver::resolved;
use crate::resolver::standing;
use crate::resolver::stepped;
use crate::resolver::Resolution;
use crate::resolver::ResolutionView;
use crate::resolver::Walk;
use crate::resolver::WalkView;
use vstd::prelude::*;
use vstd::string::*;

verus! {

/// The command: create the file that `file_path` names, with the metadata
/// that `user_metadata` holds as base64 text, under the shared root if
/// `is_shared` is set and under the application's own root otherwise.
#[derive(Debug)]
pub struct CreateFile {
    pub is_shared: bool,
    pub file_path: String,
    pub user_metadata: String,
}

/// What a command is executed with: whether shared access was granted when
/// the command arrived, and the two roots.
#[derive(Debug)]
pub struct ParameterPacket<H> {
    pub safe_drive_access: bool,
    pub app_root_dir_key: H,
    pub safe_drive_dir_key: H,
}

/// A command that waits for one directory lookup.
#[derive(Debug)]
pub struct Pending<H> {
    walk: Walk<H>,
    file_name: String,
    user_metadata: String,
}

/// A pending command as plain values.
pub ghost struct PendingView<H> {
    /// The walk to the file's directory.
    pub walk: WalkView<H>,
    /// The name of the file to create.
    pub file_name: Seq<char>,
    /// The metadata of the file, still as text.
    pub user_metadata: Seq<char>,
}

/// The creation that a command asks of the storage service.
#[derive(Debug)]
pub struct Creation<H> {
    pub name: String,
    pub metadata: Vec<u8>,
    pub directory: H,
}

/// A creation as plain values.
pub ghost struct CreationView<H> {
    pub name: Seq<char>,
    pub metadata: Seq<u8>,
    pub directory: H,
}

/// Where the execution of a command stands.
#[derive(Debug)]
pub enum Progress<H, F> {
    /// The caller looks up the child that the pending command names and
    /// hands the answer to [`Pending::advance`].
    Resolve(Pending<H>),
    /// The caller asks the storage service for this creation and hands the
    /// answer to [`completed`].
    Create(Creation<H>),
    /// The command has ended, with this result.
    Done(Result<Option<String>, ActionError<F>>),
}

/// Where the execution of a command stands, as plain values.
pub ghost enum ProgressView<H, F> {
    Resolve(PendingView<H>),
    Create(CreationView<H>),
    Done(Result<Option<Seq<char>>, ActionErrorView<F>>),
}

/// The result of a command as plain values.
pub open spec fn ended<F>(result: Result<Option<String>, ActionError<F>>) -> Result<
    Option<Seq<char>>,
    ActionErrorView<F>,
> {
    match result {
        Ok(Some(response)) => Ok(Some(response@)),
        Ok(None) => Ok(None),
        Err(error) => Err(error@),
    }
}

impl<H> View for Pending<H> {
    type V = PendingView<H>;

    closed spec fn view(&self) -> PendingView<H> {
        PendingView {
            walk: self.walk@,
            file_name: self.file_name@,
            user_metadata: self.user_metadata@,
        }
    }
}

impl<H> View for Creation<H> {
    type V = CreationView<H>;

    open spec fn view(&self) -> CreationView<H> {
        CreationView { name: self.name@, metadata: self.metadata@, directory: self.directory }
    }
}

impl<H, F> View for Progress<H, F> {
    type V = ProgressView<H, F>;

    open spec fn view(&self) -> ProgressView<H, F> {
        match *self {
            Progress::Resolve(pending) => ProgressView::Resolve(pending@),
            Progress::Create(creation) => ProgressView::Create(creation@),
            Progress::Done(result) => ProgressView::Done(ended(result)),
        }
    }
}

/// The root that a command starts from.
pub open spec fn start_of<H>(is_shared: bool, params: ParameterPacket<H>) -> H {
    if is_shared {
        params.safe_drive_dir_key
    } else {
        params.app_root_dir_key
    }
}

/// How a command goes on once the metadata text has been read, in the
/// directory that its path led to: with the creation of the file where the
/// text was well-formed, and with an error where it was not.
pub open spec fn with_metadata<H, F>(
    file_name: Seq<char>,
    metadata: Option<Seq<u8>>,
    directory: H,
) -> ProgressView<H, F> {
    match metadata {
        Some(bytes) => ProgressView::Create(
            CreationView { name: file_name, metadata: bytes, directory },
        ),
        None => ProgressView::Done(Err(ActionErrorView::DecodeError)),
    }
}

/// How a command goes on where the walk to its directory stands at `state`:
/// it waits for the next lookup, fails with the segment that named no
/// directory, or, in the directory it has reached, turns to the metadata.
pub open spec fn proceeding<H, F>(
    state: ResolutionView<H>,
    file_name: Seq<char>,
    user_metadata: Seq<char>,
) -> ProgressView<H, F> {
    match state {
        ResolutionView::Lookup(walk) => ProgressView::Resolve(
            PendingView { walk, file_name, user_metadata },
        ),
        ResolutionView::Failed(segment) => ProgressView::Done(
            Err(ActionErrorView::NotFound(segment)),
        ),
        ResolutionView::Resolved(directory) => with_metadata(
            file_name,
            base64_decoding(user_metadata),
            directory,
        ),
    }
}

/// How the execution of `command` begins: refused where it asks for the
/// shared root without shared access; failed where its path names no file;
/// otherwise at the start of the walk from its root along the directory
/// segments of its path.
pub open spec fn started<H, F>(command: CreateFile, params: ParameterPacket<H>) -> ProgressView<
    H,
    F,
> {
    if !permitted(command.is_shared, params.safe_drive_access) {
        ProgressView::Done(Err(ActionErrorView::PermissionDenied))
    } else if file_name_of(command.file_path@).len() == 0 {
        ProgressView::Done(Err(ActionErrorView::FileNameMissing))
    } else {
        proceeding(
            standing(
                segments_of(command.file_path@, false),
                0,
                start_of(command.is_shared, params),
            ),
            file_name_of(command.file_path@),
            command.user_metadata@,
        )
    }
}

/// What a command ends with once the storage service has answered the
/// creation: an empty response, or the service's failure as it came.
pub open spec fn concluded<F>(outcome: Result<(), F>) -> Result<
    Option<Seq<char>>,
    ActionErrorView<F>,
> {
    match outcome {
        Ok(_) => Ok(None),
        Err(fault) => Err(ActionErrorView::StorageError(fault)),
    }
}

/// Something asked of the storage service.
pub ghost enum Request<H> {
    /// The child of this directory that has this name.
    Lookup(H, Seq<char>),
    /// The creation of a file with this name and metadata in this directory.
    Create(Seq<char>, Seq<u8>, H),
}

/// Whether `progress` waits for a lookup that it can name.
pub open spec fn waiting<H, F>(progress: ProgressView<H, F>) -> bool {
    progress matches ProgressView::Resolve(pending) && 0 <= pending.walk.position
        < pending.walk.segments.len()
}

/// The number of segments that `progress` has not resolved yet.
pub open spec fn remaining<H, F>(progress: ProgressView<H, F>) -> nat {
    match progress {
        ProgressView::Resolve(pending) => if 0 <= pending.walk.position
            < pending.walk.segments.len() {
            (pending.walk.segments.len() - pending.walk.position) as nat
        } else {
            0
        },
        _ => 0,
    }
}

/// Where a command stands after `progress` when its lookup is answered from
/// `tree`.
pub open spec fn answered<H, F>(
    tree: spec_fn(H, Seq<char>) -> Option<H>,
    progress: ProgressView<H, F>,
) -> ProgressView<H, F> {
    match progress {
        ProgressView::Resolve(pending) => proceeding(
            stepped(
                pending.walk,
                tree(pending.walk.directory, pending.walk.segments[pending.walk.position]),
            ),
            pending.file_name,
            pending.user_metadata,
        ),
        _ => progress,
    }
}

/// What a command that stands at `progress` ends with when every lookup is
/// answered from `tree` and the creation by `store`. A pending command
/// always names its lookup; for a view that names none the value is of no
/// account.
pub open spec fn outcome<H, F>(
    tree: spec_fn(H, Seq<char>) -> Option<H>,
    store: spec_fn(Seq<char>, Seq<u8>, H) -> Result<(), F>,
    progress: ProgressView<H, F>,
) -> Result<Option<Seq<char>>, ActionErrorView<F>>
    decreases remaining(progress),
{
    match progress {
        ProgressView::Done(result) => result,
        ProgressView::Create(creation) => concluded(
            store(creation.name, creation.metadata, creation.directory),
        ),
        ProgressView::Resolve(pending) => if waiting(progress) {
            outcome(tree, store, answered(tree, progress))
        } else {
            Err(ActionErrorView::NotFound(Seq::empty()))
        },
    }
}

/// What a command that stands at `progress` asks of the storage service
/// until it ends, in order, when every lookup is answered from `tree`.
pub open spec fn requests<H, F>(
    tree: spec_fn(H, Seq<char>) -> Option<H>,
    progress: ProgressView<H, F>,
) -> Seq<Request<H>>
    decreases remaining(progress),
{
    match progress {
        ProgressView::Done(_) => Seq::empty(),
        ProgressView::Create(creation) => seq![
            Request::Create(creation.name, creation.metadata, creation.directory),
        ],
        ProgressView::Resolve(pending) => if waiting(progress) {
            seq![
                Request::Lookup(
                    pending.walk.directory,
                    pending.walk.segments[pending.walk.position],
                ),
            ] + requests(tree, answered(tree, progress))
        } else {
            Seq::empty()
        },
    }
}

/// What a command has to end with, said at once: the first of the failures
/// that applies, in the order authorization, file name, directories,
/// metadata, storage; and an empty response where none does.
pub open spec fn expected<H, F>(
    command: CreateFile,
    params: ParameterPacket<H>,
    tree: spec_fn(H, Seq<char>) -> Option<H>,
    store: spec_fn(Seq<char>, Seq<u8>, H) -> Result<(), F>,
) -> Result<Option<Seq<char>>, ActionErrorView<F>> {
    if command.is_shared && !params.safe_drive_access {
        Err(ActionErrorView::PermissionDenied)
    } else if file_name_of(command.file_path@).len() == 0 {
        Err(ActionErrorView::FileNameMissing)
    } else {
        match resolved(
            tree,
            start_of(command.is_shared, params),
            segments_of(command.file_path@, false),
        ) {
            Err(segment) => Err(ActionErrorView::NotFound(segment)),
            Ok(directory) => match base64_decoding(command.user_metadata@) {
                None => Err(ActionErrorView::DecodeError),
                Some(bytes) => concluded(
                    store(file_name_of(command.file_path@), bytes, directory),
                ),
            },
        }
    }
}

/// What the rest of a command ends with, once `position` of its segments
/// have led to `directory`.
pub open spec fn expected_from<H, F>(
    tree: spec_fn(H, Seq<char>) -> Option<H>,
    store: spec_fn(Seq<char>, Seq<u8>, H) -> Result<(), F>,
    ahead: Seq<Seq<char>>,
    directory: H,
    file_name: Seq<char>,
    user_metadata: Seq<char>,
) -> Result<Option<Seq<char>>, ActionErrorView<F>> {
    match resolved(tree, directory, ahead) {
        Err(segment) => Err(ActionErrorView::NotFound(segment)),
        Ok(reached) => match base64_decoding(user_metadata) {
            None => Err(ActionErrorView::DecodeError),
            Some(bytes) => concluded(store(file_name, bytes, reached)),
        },
    }
}

/// Whether `request` is a lookup.
pub open spec fn is_lookup<H>(request: Request<H>) -> bool {
    request is Lookup
}

/// A command whose walk has `position` segments behind it ends as the walk
/// of the segments ahead, the metadata and the storage service decide.
pub proof fn lemma_outcome_from<H, F>(
    tree: spec_fn(H, Seq<char>) -> Option<H>,
    store: spec_fn(Seq<char>, Seq<u8>, H) -> Result<(), F>,
    segments: Seq<Seq<char>>,
    position: int,
    directory: H,
    file_name: Seq<char>,
    user_metadata: Seq<char>,
)
    requires
        0 <= position <= segments.len(),
    ensures
        outcome(
            tree,
            store,
            proceeding::<H, F>(
                standing(segments, position, directory),
                file_name,
                user_metadata,
            ),
        ) == expected_from(
            tree,
            store,
            segments.skip(position),
            directory,
            file_name,
            user_metadata,
        ),
    decreases segments.len() - position,
{
    reveal_with_fuel(outcome, 2);
    let ahead = segments.skip(position);
    if position < segments.len() {
        assert(ahead[0] == segments[position]);
        assert(ahead.drop_first() =~= segments.skip(position + 1));
        match tree(directory, segments[position]) {
            Some(child) => {
                lemma_outcome_from(
                    tree,
                    store,
                    segments,
                    position + 1,
                    child,
                    file_name,
                    user_metadata,
                );
            },
            None => {},
        }
    }
}

/// Carried out step by step, with every answer taken from the storage
/// service, a command ends with what it has to end with.
pub proof fn lemma_outcome_is_expected<H, F>(
    command: CreateFile,
    params: ParameterPacket<H>,
    tree: spec_fn(H, Seq<char>) -> Option<H>,
    store: spec_fn(Seq<char>, Seq<u8>, H) -> Result<(), F>,
)
    ensures
        outcome(tree, store, started::<H, F>(command, params)) == expected(
            command,
            params,
            tree,
            store,
        ),
{
    let segments = segments_of(command.file_path@, false);
    lemma_outcome_from(
        tree,
        store,
        segments,
        0,
        start_of(command.is_shared, params),
        file_name_of(command.file_path@),
        command.user_metadata@,
    );
    assert(segments.skip(0) =~= segments);
}

/// A command for the shared root that finds shared access not granted ends
/// at once with `PermissionDenied`, and asks nothing of the storage service.
pub proof fn lemma_denied_asks_nothing<H, F>(
    command: CreateFile,
    params: ParameterPacket<H>,
    tree: spec_fn(H, Seq<char>) -> Option<H>,
)
    requires
        command.is_shared,
        !params.safe_drive_access,
    ensures
        started::<H, F>(command, params) == ProgressView::<H, F>::Done(
            Err(ActionErrorView::PermissionDenied),
        ),
        requests(tree, started::<H, F>(command, params)) == Seq::<Request<H>>::empty(),
{
}

/// A command for the application's own root is carried out in the same way,
/// and ends with the same result, whether shared access is granted or not.
pub proof fn lemma_private_ignores_access<H, F>(
    command: CreateFile,
    granted: ParameterPacket<H>,
    withheld: ParameterPacket<H>,
    tree: spec_fn(H, Seq<char>) -> Option<H>,
    store: spec_fn(Seq<char>, Seq<u8>, H) -> Result<(), F>,
)
    requires
        !command.is_shared,
        granted.safe_drive_access,
        !withheld.safe_drive_access,
        granted.app_root_dir_key == withheld.app_root_dir_key,
        granted.safe_drive_dir_key == withheld.safe_drive_dir_key,
    ensures
        started::<H, F>(command, granted) == started::<H, F>(command, withheld),
        expected(command, granted, tree, store) == expected(command, withheld, tree, store),
{
}

/// An authorized command whose path names no file ends at once with
/// `FileNameMissing`, and asks nothing of the storage service.
pub proof fn lemma_missing_file_name_asks_nothing<H, F>(
    command: CreateFile,
    params: ParameterPacket<H>,
    tree: spec_fn(H, Seq<char>) -> Option<H>,
)
    requires
        permitted(command.is_shared, params.safe_drive_access),
        file_name_of(command.file_path@).len() == 0,
    ensures
        started::<H, F>(command, params) == ProgressView::<H, F>::Done(
            Err(ActionErrorView::FileNameMissing),
        ),
        requests(tree, started::<H, F>(command, params)) == Seq::<Request<H>>::empty(),
{
}

/// What a command asks of the storage service, once `position` of its
/// segments are resolved: lookups and nothing else as long as it walks, and
/// after them the creation, if and only if the walk arrives and the metadata
/// is well-formed.
pub proof fn lemma_requests_from<H, F>(
    tree: spec_fn(H, Seq<char>) -> Option<H>,
    segments: Seq<Seq<char>>,
    position: int,
    directory: H,
    file_name: Seq<char>,
    user_metadata: Seq<char>,
)
    requires
        0 <= position <= segments.len(),
    ensures
        ({
            let asked = requests(
                tree,
                proceeding::<H, F>(
                    standing(segments, position, directory),
                    file_name,
                    user_metadata,
                ),
            );
            let walked = lookups(tree, standing(segments, position, directory));
            &&& walked.len() <= asked.len() <= walked.len() + 1
            &&& forall|k: int|
                0 <= k < walked.len() ==> asked[k] == Request::Lookup(
                    walked[k].0,
                    walked[k].1,
                )
            &&& asked.len() == walked.len() + 1 <==> resolved(
                tree,
                directory,
                segments.skip(position),
            ) is Ok && base64_decoding(user_metadata) is Some
            &&& asked.len() == walked.len() + 1 ==> asked.last() == Request::Create(
                file_name,
                base64_decoding(user_metadata)->Some_0,
                resolved(tree, directory, segments.skip(position))->Ok_0,
            )
        }),
    decreases segments.len() - position,
{
    reveal_with_fuel(requests, 2);
    reveal_with_fuel(lookups, 2);
    let ahead = segments.skip(position);
    if position < segments.len() {
        assert(ahead[0] == segments[position]);
        assert(ahead.drop_first() =~= segments.skip(position + 1));
        match tree(directory, segments[position]) {
            Some(child) => {
                lemma_requests_from::<H, F>(
                    tree,
                    segments,
                    position + 1,
                    child,
                    file_name,
                    user_metadata,
                );
            },
            None => {},
        }
    }
}

/// A command with malformed metadata never asks for a creation, whatever
/// else it does; and where it is authorized, its path names a file and the
/// directories of the path exist, it ends with `DecodeError`.
pub proof fn lemma_malformed_metadata_creates_nothing<H, F>(
    command: CreateFile,
    params: ParameterPacket<H>,
    tree: spec_fn(H, Seq<char>) -> Option<H>,
    store: spec_fn(Seq<char>, Seq<u8>, H) -> Result<(), F>,
)
    requires
        base64_decoding(command.user_metadata@) is None,
    ensures
        forall|k: int|
            0 <= k < requests(tree, started::<H, F>(command, params)).len() ==> is_lookup(
                #[trigger] requests(tree, started::<H, F>(command, params))[k],
            ),
        permitted(command.is_shared, params.safe_drive_access) && file_name_of(
            command.file_path@,
        ).len() > 0 && resolved(
            tree,
            start_of(command.is_shared, params),
            segments_of(command.file_path@, false),
        ) is Ok ==> outcome(tree, store, started::<H, F>(command, params)) == Err::<
            Option<Seq<char>>,
            ActionErrorView<F>,
        >(ActionErrorView::DecodeError),
{
    lemma_outcome_is_expected(command, params, tree, store);
    if permitted(command.is_shared, params.safe_drive_access) && file_name_of(
        command.file_path@,
    ).len() > 0 {
        lemma_requests_from::<H, F>(
            tree,
            segments_of(command.file_path@, false),
            0,
            start_of(command.is_shared, params),
            file_name_of(command.file_path@),
            command.user_metadata@,
        );
    }
}

/// Where a directory segment of an authorized command names no directory,
/// the command ends with `NotFound` and the first such segment, and has
/// asked for lookups only: one for that segment and one for each segment
/// before it.
pub proof fn lemma_missing_directory<H, F>(
    command: CreateFile,
    params: ParameterPacket<H>,
    tree: spec_fn(H, Seq<char>) -> Option<H>,
    store: spec_fn(Seq<char>, Seq<u8>, H) -> Result<(), F>,
    missing: int,
)
    requires
        permitted(command.is_shared, params.safe_drive_access),
        file_name_of(command.file_path@).len() > 0,
        0 <= missing < segments_of(command.file_path@, false).len(),
        resolved(
            tree,
            start_of(command.is_shared, params),
            segments_of(command.file_path@, false).subrange(0, missing),
        ) matches Ok(parent) && tree(parent, segments_of(command.file_path@, false)[missing])
            is None,
    ensures
        outcome(tree, store, started::<H, F>(command, params)) == Err::<
            Option<Seq<char>>,
            ActionErrorView<F>,
        >(ActionErrorView::NotFound(segments_of(command.file_path@, false)[missing])),
        requests(tree, started::<H, F>(command, params)).len() == missing + 1,
        forall|k: int|
            0 <= k <= missing ==> is_lookup(
                #[trigger] requests(tree, started::<H, F>(command, params))[k],
            ),
{
    let segments = segments_of(command.file_path@, false);
    let start = start_of(command.is_shared, params);
    lemma_outcome_is_expected(command, params, tree, store);
    lemma_stops_at_first_missing(tree, segments, 0, start, missing);
    lemma_driven_is_resolved(tree, start, segments);
    lemma_requests_from::<H, F>(
        tree,
        segments,
        0,
        start,
        file_name_of(command.file_path@),
        command.user_metadata@,
    );
    assert(segments.skip(0) =~= segments);
}

/// Goes on with a command whose directory is reached and whose metadata
/// text has been through the decoder.
pub fn requested<H, F>(
    file_name: String,
    decoded: Result<Vec<u8>, DecodeError>,
    directory: H,
) -> (r: Progress<H, F>)
    ensures
        r@ == with_metadata::<H, F>(
            file_name@,
            match decoded {
                Ok(bytes) => Some(bytes@),
                Err(_) => None,
            },
            directory,
        ),
{
    match decoded {
        Ok(metadata) => Progress::Create(Creation { name: file_name, metadata, directory }),
        Err(_) => Progress::Done(Err(ActionError::DecodeError)),
    }
}

/// Goes on with a command whose walk stands at `state`.
fn proceed<H, F>(state: Resolution<H>, file_name: String, user_metadata: String) -> (r: Progress<
    H,
    F,
>)
    ensures
        r@ == proceeding::<H, F>(state@, file_name@, user_metadata@),
{
    match state {
        Resolution::Lookup(walk) => Progress::Resolve(Pending { walk, file_name, user_metadata }),
        Resolution::Failed(missing) => Progress::Done(Err(ActionError::NotFound(missing.segment))),
        Resolution::Resolved(directory) => {
            let decoded = decode(user_metadata.as_str());
            requested(file_name, decoded, directory)
        },
    }
}

/// Ends a command with the storage service's answer to its creation.
pub fn completed<F>(outcome: Result<(), F>) -> (r: Result<Option<String>, ActionError<F>>)
    ensures
        ended(r) == concluded(outcome),
{
    match outcome {
        Ok(_) => Ok(None),
        Err(fault) => Err(ActionError::StorageError(fault)),
    }
}

impl CreateFile {
    /// A command with these three values.
    pub fn new(is_shared: bool, file_path: String, user_metadata: String) -> (r: CreateFile)
        ensures
            r.is_shared == is_shared,
            r.file_path == file_path,
            r.user_metadata == user_metadata,
    {
        CreateFile { is_shared, file_path, user_metadata }
    }

    /// Begins to execute the command. Nothing is asked of the storage
    /// service before the command is authorized and its path names a file.
    pub fn execute<H, F>(self, params: ParameterPacket<H>) -> (r: Progress<H, F>)
        ensures
            r@ == started::<H, F>(self, params),
    {
        let start = if self.is_shared {
            params.safe_drive_dir_key
        } else {
            params.app_root_dir_key
        };
        if check(self.is_shared, params.safe_drive_access).is_err() {
            return Progress::Done(Err(ActionError::PermissionDenied));
        }
        let name = file_name(self.file_path.as_str());
        if name.as_str().unicode_len() == 0 {
            return Progress::Done(Err(ActionError::FileNameMissing));
        }
        let segments = tokenise_path(self.file_path.as_str(), false);
        proceed(resolve(start, segments), name, self.user_metadata)
    }
}

impl<H> Pending<H> {
    /// The directory in which the next child is looked up.
    pub fn directory(&self) -> (r: &H)
        ensures
            0 <= self@.walk.position < self@.walk.segments.len(),
            *r == self@.walk.directory,
    {
        self.walk.directory()
    }

    /// The name of the child that is looked up next.
    pub fn name(&self) -> (r: &str)
        ensures
            0 <= self@.walk.position < self@.walk.segments.len(),
            r@ == self@.walk.segments[self@.walk.position],
    {
        self.walk.name()
    }

    /// Takes the answer to the lookup: `child` is the directory of that name,
    /// or `None` where there is none.
    pub fn advance<F>(self, child: Option<H>) -> (r: Progress<H, F>)
        ensures
            0 <= self@.walk.position < self@.walk.segments.len(),
            r@ == proceeding::<H, F>(
                stepped(self@.walk, child),
                self@.file_name,
                self@.user_metadata,
            ),
    {
        proceed(self.walk.advance(child), self.file_name, self.user_metadata)
    }
}

} // verus!
