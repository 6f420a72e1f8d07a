//! Which desktop the gateway connects to.

use crate::text::is_blank;
use vstd::prelude::*;

verus! {

/// A remote desktop.
#[derive(Clone)]
pub struct Target {
    pub protocol: Option<String>,
    pub name: Option<String>,
    pub host: String,
    pub port: u16,
    pub username: String,
    pub password: String,
    pub width: u16,
    pub height: u16,
}

/// What the command line and the environment say.
pub struct Args {
    /// The targets of the configuration file, where one was named.
    pub config: Option<Vec<Target>>,
    /// The name of the target to take from the file. Without it, the first RDP
    /// target is taken.
    pub target: Option<String>,
    /// The RDP host. Used without a file.
    pub host: Option<String>,
    /// The RDP port. Used without a file.
    pub port: u16,
    /// The RDP username. Used without a file.
    pub username: Option<String>,
    /// The RDP password. Used without a file.
    pub password: Option<String>,
    /// The width of the desktop. Used without a file.
    pub width: u16,
    /// The height of the desktop. Used without a file.
    pub height: u16,
}

/// Why there is no target to connect to.
#[derive(Debug, Clone, Copy, PartialEq, Eq, Structural)]
pub enum ConfigError {
    /// The file has no target with the given name.
    TargetNotFound,
    /// The file has no RDP target.
    NoRdpTarget,
    /// The target with the given name is not an RDP target.
    NotAnRdpTarget,
    /// Neither a file nor a host was given.
    MissingHost,
    /// Neither a file nor a username was given.
    MissingUsername,
    /// Neither a file nor a password was given.
    MissingPassword,
    /// The host is blank.
    EmptyHost,
    /// The username is empty.
    EmptyUsername,
    /// The desktop has no pixels.
    EmptyDesktop,
}

/// How `std`'s `Debug` shows the text that is `text`.
pub uninterp spec fn quoted(text: Seq<char>) -> Seq<char>;

/// Calls `std`'s `Debug` for `str`, by way of `format!`: the text in quotes, with
/// escapes where it needs them. Which characters are escaped goes by tables of
/// Unicode, so what comes out is named and not described; it is a function of the text.
#[verifier::external_body]
fn quote(text: &str) -> (shown: String)
    ensures
        shown@ == quoted(text@),
{
    format!("{text:?}")
}

impl ConfigError {
    /// The words of the error, when the target that was asked for is shown as `shown`
    /// and the configuration file is called `file`.
    pub open spec fn words(self, shown: Seq<char>, file: Seq<char>) -> Seq<char> {
        match self {
            ConfigError::TargetNotFound => "target "@ + shown + " not found in "@ + file,
            ConfigError::NoRdpTarget => "no RDP target found in "@ + file,
            ConfigError::NotAnRdpTarget => "selected target is not an RDP target"@,
            ConfigError::MissingHost =>
                "--host or RDPWEB_HOST is required when --config is omitted"@,
            ConfigError::MissingUsername =>
                "--username or RDPWEB_USERNAME is required when --config is omitted"@,
            ConfigError::MissingPassword =>
                "--password or RDPWEB_PASSWORD is required when --config is omitted"@,
            ConfigError::EmptyHost => "RDP host is empty"@,
            ConfigError::EmptyUsername => "RDP username is empty"@,
            ConfigError::EmptyDesktop => "RDP desktop size must be non-zero"@,
        }
    }

    /// The words of the error, when the target that was asked for is shown as `shown`
    /// and the configuration file is called `file`.
    pub fn worded(self, shown: &str, file: &str) -> (text: String)
        ensures
            text@ == self.words(shown@, file@),
    {
        match self {
            ConfigError::TargetNotFound => {
                let mut text = "target ".to_owned();
                text.append(shown);
                text.append(" not found in ");
                text.append(file);
                text
            },
            ConfigError::NoRdpTarget => {
                let mut text = "no RDP target found in ".to_owned();
                text.append(file);
                text
            },
            ConfigError::NotAnRdpTarget => "selected target is not an RDP target".to_owned(),
            ConfigError::MissingHost => {
                "--host or RDPWEB_HOST is required when --config is omitted".to_owned()
            },
            ConfigError::MissingUsername => {
                "--username or RDPWEB_USERNAME is required when --config is omitted".to_owned()
            },
            ConfigError::MissingPassword => {
                "--password or RDPWEB_PASSWORD is required when --config is omitted".to_owned()
            },
            ConfigError::EmptyHost => "RDP host is empty".to_owned(),
            ConfigError::EmptyUsername => "RDP username is empty".to_owned(),
            ConfigError::EmptyDesktop => "RDP desktop size must be non-zero".to_owned(),
        }
    }

    /// The words of the error, when the target `name` was asked for and the
    /// configuration file is called `file`.
    pub fn message(self, name: &str, file: &str) -> (text: String)
        ensures
            text@ == self.words(quoted(name@), file@),
    {
        self.worded(quote(name).as_str(), file)
    }
}

/// The content of an optional text.
pub open spec fn text_view(text: Option<String>) -> Option<Seq<char>> {
    match text {
        Some(text) => Some(text@),
        None => None,
    }
}

/// The content of a [`Target`].
pub struct TargetView {
    pub protocol: Option<Seq<char>>,
    pub name: Option<Seq<char>>,
    pub host: Seq<char>,
    pub port: u16,
    pub username: Seq<char>,
    pub password: Seq<char>,
    pub width: u16,
    pub height: u16,
}

impl View for Target {
    type V = TargetView;

    open spec fn view(&self) -> TargetView {
        TargetView {
            protocol: text_view(self.protocol),
            name: text_view(self.name),
            host: self.host@,
            port: self.port,
            username: self.username@,
            password: self.password@,
            width: self.width,
            height: self.height,
        }
    }
}

/// The contents of a list of targets.
pub open spec fn target_views(targets: Seq<Target>) -> Seq<TargetView> {
    targets.map_values(|target: Target| target@)
}

/// The content of [`Args`].
pub struct ArgsView {
    pub config: Option<Seq<TargetView>>,
    pub target: Option<Seq<char>>,
    pub host: Option<Seq<char>>,
    pub port: u16,
    pub username: Option<Seq<char>>,
    pub password: Option<Seq<char>>,
    pub width: u16,
    pub height: u16,
}

impl View for Args {
    type V = ArgsView;

    open spec fn view(&self) -> ArgsView {
        ArgsView {
            config: match self.config {
                Some(targets) => Some(target_views(targets@)),
                None => None,
            },
            target: text_view(self.target),
            host: text_view(self.host),
            port: self.port,
            username: text_view(self.username),
            password: text_view(self.password),
            width: self.width,
            height: self.height,
        }
    }
}

impl TargetView {
    /// Whether this is an RDP target; one without a protocol is.
    pub open spec fn is_rdp(self) -> bool {
        self.protocol matches Some(protocol) ==> protocol == "rdp"@
    }

    /// What is wrong with the target, where something is.
    pub open spec fn defect(self) -> Option<ConfigError> {
        if crate::text::blank(self.host) {
            Some(ConfigError::EmptyHost)
        } else if self.username.len() == 0 {
            Some(ConfigError::EmptyUsername)
        } else if self.width == 0 || self.height == 0 {
            Some(ConfigError::EmptyDesktop)
        } else {
            None
        }
    }

    /// The target itself, or what is wrong with it.
    pub open spec fn validated(self) -> Result<TargetView, ConfigError> {
        match self.defect() {
            Some(error) => Err(error),
            None => Ok(self),
        }
    }
}

/// Whether a target is the one that is asked for by `name`, or, without a name, an
/// RDP target.
pub open spec fn wanted(target: TargetView, name: Option<Seq<char>>) -> bool {
    match name {
        Some(name) => target.name == Some(name),
        None => target.is_rdp(),
    }
}

/// The first target that is wanted.
pub open spec fn first_wanted(targets: Seq<TargetView>, name: Option<Seq<char>>) -> Option<
    TargetView,
>
    decreases targets.len(),
{
    if targets.len() == 0 {
        None
    } else if wanted(targets[0], name) {
        Some(targets[0])
    } else {
        first_wanted(targets.skip(1), name)
    }
}

/// The target that `args` lead to. A file goes before everything else; without one,
/// host, username and password have to be there.
pub open spec fn resolved(args: ArgsView) -> Result<TargetView, ConfigError> {
    match args.config {
        Some(targets) => match first_wanted(targets, args.target) {
            None => Err(
                if args.target is Some {
                    ConfigError::TargetNotFound
                } else {
                    ConfigError::NoRdpTarget
                },
            ),
            Some(target) => if target.is_rdp() {
                target.validated()
            } else {
                Err(ConfigError::NotAnRdpTarget)
            },
        },
        None => if args.host is None {
            Err(ConfigError::MissingHost)
        } else if args.username is None {
            Err(ConfigError::MissingUsername)
        } else if args.password is None {
            Err(ConfigError::MissingPassword)
        } else {
            (TargetView {
                protocol: Some("rdp"@),
                name: None,
                host: args.host->0,
                port: args.port,
                username: args.username->0,
                password: args.password->0,
                width: args.width,
                height: args.height,
            }).validated()
        },
    }
}

/// The content of a resolved target.
pub open spec fn resolution_view(resolution: Result<Target, ConfigError>) -> Result<
    TargetView,
    ConfigError,
> {
    match resolution {
        Ok(target) => Ok(target@),
        Err(error) => Err(error),
    }
}

/// The RDP port, where none is given.
pub fn default_port() -> (port: u16)
    ensures
        port == 3389,
{
    3389
}

/// The width of the desktop, where none is given.
pub fn default_width() -> (width: u16)
    ensures
        width == 1280,
{
    1280
}

/// The height of the desktop, where none is given.
pub fn default_height() -> (height: u16)
    ensures
        height == 800,
{
    800
}

impl Target {
    /// Whether this is an RDP target; one without a protocol is.
    pub fn is_rdp(&self) -> (yes: bool)
        ensures
            yes == self@.is_rdp(),
    {
        let rdp = "rdp".to_owned();
        match &self.protocol {
            Some(protocol) => *protocol == rdp,
            None => true,
        }
    }

    /// Whether this is the target that is asked for by `name`, or, without a name,
    /// an RDP target.
    fn is_wanted(&self, name: &Option<String>) -> (yes: bool)
        ensures
            yes == wanted(self@, text_view(*name)),
    {
        match name {
            Some(name) => match &self.name {
                Some(own) => *own == *name,
                None => false,
            },
            None => self.is_rdp(),
        }
    }
}

/// Lets a target through that can be connected to.
pub fn validate(target: Target) -> (validated: Result<Target, ConfigError>)
    ensures
        match target@.defect() {
            Some(error) => validated == Err::<Target, ConfigError>(error),
            None => validated == Ok::<Target, ConfigError>(target),
        },
{
    if is_blank(target.host.as_str()) {
        return Err(ConfigError::EmptyHost);
    }
    if target.username.as_str().is_empty() {
        return Err(ConfigError::EmptyUsername);
    }
    if target.width == 0 || target.height == 0 {
        return Err(ConfigError::EmptyDesktop);
    }
    Ok(target)
}

/// Takes the first target out that is wanted.
fn take_wanted(targets: Vec<Target>, name: &Option<String>) -> (found: Option<Target>)
    ensures
        match first_wanted(target_views(targets@), text_view(*name)) {
            Some(target) => found matches Some(found) && found@ == target,
            None => found is None,
        },
{
    let mut list: Vec<Target> = targets;
    let mut at: usize = 0;
    proof {
        assert(target_views(list@).skip(0) =~= target_views(list@));
    }
    while at < list.len()
        invariant
            at <= list@.len(),
            list@ == targets@,
            first_wanted(target_views(targets@), text_view(*name)) == first_wanted(
                target_views(targets@).skip(at as int),
                text_view(*name),
            ),
        decreases list@.len() - at,
    {
        let ghost rest = target_views(targets@).skip(at as int);
        proof {
            assert(rest[0] == list@[at as int]@);
            assert(rest.skip(1) =~= target_views(targets@).skip(at + 1));
        }
        if list[at].is_wanted(name) {
            return Some(list.swap_remove(at));
        }
        at = at + 1;
    }
    None
}

impl Args {
    /// The target to connect to.
    pub fn resolve_target(self) -> (resolution: Result<Target, ConfigError>)
        ensures
            resolution_view(resolution) == resolved(self@),
    {
        if let Some(targets) = self.config {
            return match take_wanted(targets, &self.target) {
                None => Err(
                    match self.target {
                        Some(_) => ConfigError::TargetNotFound,
                        None => ConfigError::NoRdpTarget,
                    },
                ),
                Some(target) => if target.is_rdp() {
                    validate(target)
                } else {
                    Err(ConfigError::NotAnRdpTarget)
                },
            };
        }
        let host = match self.host {
            Some(host) => host,
            None => {
                return Err(ConfigError::MissingHost);
            },
        };
        let username = match self.username {
            Some(username) => username,
            None => {
                return Err(ConfigError::MissingUsername);
            },
        };
        let password = match self.password {
            Some(password) => password,
            None => {
                return Err(ConfigError::MissingPassword);
            },
        };
        validate(
            Target {
                protocol: Some("rdp".to_owned()),
                name: None,
                host,
                port: self.port,
                username,
                password,
                width: self.width,
                height: self.height,
            },
        )
    }
}

/// A target that was resolved is an RDP target with a host, a username and a desktop
/// that has pixels.
pub proof fn law_resolved_target_is_usable(args: ArgsView)
    requires
        resolved(args) is Ok,
    ensures
        resolved(args)->Ok_0.is_rdp(),
        !crate::text::blank(resolved(args)->Ok_0.host),
        resolved(args)->Ok_0.username.len() > 0,
        resolved(args)->Ok_0.width > 0,
        resolved(args)->Ok_0.height > 0,
{
    if args.config is Some && args.target is None {
        lemma_first_wanted(args.config->0, args.target);
    }
}

/// What is found in a list is wanted, and nothing in front of it is.
proof fn lemma_first_wanted(targets: Seq<TargetView>, name: Option<Seq<char>>)
    ensures
        match first_wanted(targets, name) {
            Some(target) => exists|at: int|
                0 <= at < targets.len() && #[trigger] targets[at] == target && wanted(target, name)
                    && forall|i: int| 0 <= i < at ==> !wanted(#[trigger] targets[i], name),
            None => forall|i: int| 0 <= i < targets.len() ==> !wanted(#[trigger] targets[i], name),
        },
    decreases targets.len(),
{
    if targets.len() > 0 && !wanted(targets[0], name) {
        let rest = targets.skip(1);
        lemma_first_wanted(rest, name);
        match first_wanted(rest, name) {
            Some(target) => {
                let at = choose|at: int|
                    0 <= at < rest.len() && #[trigger] rest[at] == target && wanted(target, name)
                        && forall|i: int| 0 <= i < at ==> !wanted(#[trigger] rest[i], name);
                assert(targets[at + 1] == target);
                assert forall|i: int| 0 <= i < at + 1 implies !wanted(
                    #[trigger] targets[i],
                    name,
                ) by {
                    if i > 0 {
                        assert(rest[i - 1] == targets[i]);
                    }
                }
            },
            None => {
                assert forall|i: int| 0 <= i < targets.len() implies !wanted(
                    #[trigger] targets[i],
                    name,
                ) by {
                    if i > 0 {
                        assert(rest[i - 1] == targets[i]);
                    }
                }
            },
        }
    } else if targets.len() > 0 {
        assert(targets[0] == first_wanted(targets, name)->0);
    }
}

/// Without a name, a file leads to its first RDP target: the one at `at` where those
/// in front of it are of other protocols.
pub proof fn law_first_rdp_target_is_taken(args: ArgsView, at: int)
    requires
        args.config is Some,
        args.target is None,
        0 <= at < args.config->0.len(),
        args.config->0[at].is_rdp(),
        forall|i: int| 0 <= i < at ==> !(#[trigger] args.config->0[i]).is_rdp(),
    ensures
        resolved(args) == args.config->0[at].validated(),
{
    lemma_first_at(args.config->0, args.target, at);
}

/// With a name, a file leads to its first target of that name, which has to be an RDP
/// target.
pub proof fn law_named_target_is_taken(args: ArgsView, at: int)
    requires
        args.config is Some,
        args.target is Some,
        0 <= at < args.config->0.len(),
        args.config->0[at].name == args.target,
        forall|i: int| 0 <= i < at ==> (#[trigger] args.config->0[i]).name != args.target,
    ensures
        resolved(args) == if args.config->0[at].is_rdp() {
            args.config->0[at].validated()
        } else {
            Err(ConfigError::NotAnRdpTarget)
        },
{
    lemma_first_at(args.config->0, args.target, at);
}

/// The first wanted target is the one with no other in front of it.
proof fn lemma_first_at(targets: Seq<TargetView>, name: Option<Seq<char>>, at: int)
    requires
        0 <= at < targets.len(),
        wanted(targets[at], name),
        forall|i: int| 0 <= i < at ==> !wanted(#[trigger] targets[i], name),
    ensures
        first_wanted(targets, name) == Some(targets[at]),
    decreases targets.len(),
{
    if at > 0 {
        let rest = targets.skip(1);
        assert(!wanted(targets[0], name));
        assert forall|i: int| 0 <= i < at - 1 implies !wanted(#[trigger] rest[i], name) by {
            assert(rest[i] == targets[i + 1]);
        }
        lemma_first_at(rest, name, at - 1);
    }
}

/// With a file, what was said of host, port, user and desktop does not matter.
pub proof fn law_file_goes_first(args: ArgsView, other: ArgsView)
    requires
        args.config is Some,
        args.config == other.config,
        args.target == other.target,
    ensures
        resolved(args) == resolved(other),
{
}

/// Without a file, the arguments are the target: each of its fields is the argument of
/// that name. It is resolved exactly where there are a host that is not blank, a username
/// that is not empty, a password, and a desktop with pixels.
pub proof fn law_arguments_are_the_target(args: ArgsView)
    requires
        args.config is None,
    ensures
        resolved(args) is Ok <==> (args.host is Some && !crate::text::blank(args.host->0)
            && args.username is Some && args.username->0.len() > 0 && args.password is Some
            && args.width > 0 && args.height > 0),
        resolved(args) is Ok ==> ({
            let target = resolved(args)->Ok_0;
            &&& args.host == Some(target.host)
            &&& args.username == Some(target.username)
            &&& args.password == Some(target.password)
            &&& target.port == args.port
            &&& target.width == args.width
            &&& target.height == args.height
            &&& target.protocol == Some("rdp"@)
            &&& target.name is None
        }),
{
}

/// Without a file, what is missing is named, the host before the username before the
/// password, and then what is empty, in the same order.
pub proof fn law_first_missing_argument_is_named(args: ArgsView)
    requires
        args.config is None,
        resolved(args) is Err,
    ensures
        ({
            let error = resolved(args)->Err_0;
            let given = args.host is Some && args.username is Some && args.password is Some;
            &&& error == ConfigError::MissingHost <==> args.host is None
            &&& error == ConfigError::MissingUsername <==> args.host is Some && args.username is None
            &&& error == ConfigError::MissingPassword <==> args.host is Some && args.username is Some
                && args.password is None
            &&& error == ConfigError::EmptyHost <==> given && crate::text::blank(args.host->0)
            &&& error == ConfigError::EmptyUsername <==> given && !crate::text::blank(args.host->0)
                && args.username->0.len() == 0
            &&& error == ConfigError::EmptyDesktop <==> given && !crate::text::blank(args.host->0)
                && args.username->0.len() > 0 && (args.width == 0 || args.height == 0)
        }),
{
}

/// Whether a target is of the protocol `rdp` or of none.
pub open spec fn rdp_or_none(target: TargetView) -> bool {
    target.protocol is None || target.protocol == Some("rdp"@)
}

/// With a file, the target is one of the file's, as it stands there: the first one of the
/// name that was asked for, or, without a name, the first one of the protocol `rdp` or
/// without a protocol. It is resolved exactly where it is an RDP target and has a host,
/// a username and pixels.
pub proof fn law_file_target_is_taken_as_it_is(args: ArgsView, at: int)
    requires
        args.config is Some,
        0 <= at < args.config->0.len(),
        args.target is Some ==> args.config->0[at].name == args.target && forall|i: int|
            0 <= i < at ==> (#[trigger] args.config->0[i]).name != args.target,
        args.target is None ==> rdp_or_none(args.config->0[at]) && forall|i: int|
            0 <= i < at ==> !rdp_or_none(#[trigger] args.config->0[i]),
    ensures
        ({
            let target = args.config->0[at];
            &&& resolved(args) is Ok <==> rdp_or_none(target) && !crate::text::blank(target.host)
                && target.username.len() > 0 && target.width > 0 && target.height > 0
            &&& resolved(args) is Ok ==> resolved(args)->Ok_0 == target
            &&& resolved(args) == Err::<TargetView, ConfigError>(ConfigError::NotAnRdpTarget)
                <==> !rdp_or_none(target)
            &&& resolved(args) == Err::<TargetView, ConfigError>(ConfigError::EmptyHost)
                <==> rdp_or_none(target) && crate::text::blank(target.host)
            &&& resolved(args) == Err::<TargetView, ConfigError>(ConfigError::EmptyUsername)
                <==> rdp_or_none(target) && !crate::text::blank(target.host)
                && target.username.len() == 0
        }),
{
    let targets = args.config->0;
    if args.target is None {
        assert forall|i: int| 0 <= i < at implies !wanted(#[trigger] targets[i], args.target) by {
            assert(!rdp_or_none(targets[i]));
        }
    } else {
        assert forall|i: int| 0 <= i < at implies !wanted(#[trigger] targets[i], args.target) by {
            assert(targets[i].name != args.target);
        }
    }
    lemma_first_at(targets, args.target, at);
}

/// A file without a target to take says so: with a name, that it is not found, and without
/// one, that there is no RDP target.
pub proof fn law_file_without_target_is_refused(args: ArgsView)
    requires
        args.config is Some,
        args.target is Some ==> forall|i: int|
            0 <= i < args.config->0.len() ==> (#[trigger] args.config->0[i]).name != args.target,
        args.target is None ==> forall|i: int|
            0 <= i < args.config->0.len() ==> !rdp_or_none(#[trigger] args.config->0[i]),
    ensures
        args.target is Some ==> resolved(args) == Err::<TargetView, ConfigError>(
            ConfigError::TargetNotFound,
        ),
        args.target is None ==> resolved(args) == Err::<TargetView, ConfigError>(
            ConfigError::NoRdpTarget,
        ),
{
    let targets = args.config->0;
    lemma_first_wanted(targets, args.target);
    if first_wanted(targets, args.target) is Some {
        let at = choose|at: int|
            0 <= at < targets.len() && #[trigger] targets[at] == first_wanted(
                targets,
                args.target,
            )->0 && wanted(targets[at], args.target);
        assert(args.target is None ==> !rdp_or_none(targets[at]));
        assert(args.target is Some ==> targets[at].name != args.target);
        assert(false);
    }
}

/// The content of a target is the target, field by field.
pub proof fn law_target_content(target: Target)
    ensures
        target@.host == target.host@,
        target@.port == target.port,
        target@.username == target.username@,
        target@.password == target.password@,
        target@.width == target.width,
        target@.height == target.height,
        match target.protocol {
            Some(protocol) => target@.protocol == Some(protocol@),
            None => target@.protocol is None,
        },
        match target.name {
            Some(name) => target@.name == Some(name@),
            None => target@.name is None,
        },
{
}

/// The content of arguments is the arguments, field by field.
pub proof fn law_arguments_content(args: Args)
    ensures
        args@.port == args.port,
        args@.width == args.width,
        args@.height == args.height,
        match args.target {
            Some(target) => args@.target == Some(target@),
            None => args@.target is None,
        },
        match args.host {
            Some(host) => args@.host == Some(host@),
            None => args@.host is None,
        },
        match args.username {
            Some(username) => args@.username == Some(username@),
            None => args@.username is None,
        },
        match args.password {
            Some(password) => args@.password == Some(password@),
            None => args@.password is None,
        },
        match args.config {
            Some(targets) => args@.config matches Some(contents) && contents.len()
                == targets@.len() && forall|i: int|
                0 <= i < contents.len() ==> #[trigger] contents[i] == targets@[i]@,
            None => args@.config is None,
        },
{
}

/// A target that is let through is the one that came; one without a host, a username or
/// pixels is not let through.
pub proof fn law_usable_targets_are_let_through(target: TargetView)
    ensures
        target.validated() is Ok <==> !crate::text::blank(target.host) && target.username.len() > 0
            && target.width > 0 && target.height > 0,
        target.validated() is Ok ==> target.validated()->Ok_0 == target,
        target.defect() is None <==> !crate::text::blank(target.host) && target.username.len() > 0
            && target.width > 0 && target.height > 0,
        target.defect() == Some(ConfigError::EmptyHost) <==> crate::text::blank(target.host),
        target.defect() == Some(ConfigError::EmptyUsername) <==> !crate::text::blank(target.host)
            && target.username.len() == 0,
        target.defect() is Some ==> target.defect()->0 == ConfigError::EmptyHost
            || target.defect()->0 == ConfigError::EmptyUsername || target.defect()->0
            == ConfigError::EmptyDesktop,
{
}

/// What the user is told of a target that is not there names it and the file; of a file
/// without RDP targets, the file.
pub proof fn law_errors_name_target_and_file(shown: Seq<char>, file: Seq<char>)
    ensures
        ConfigError::TargetNotFound.words(shown, file) == "target "@ + shown + " not found in "@
            + file,
        ConfigError::NoRdpTarget.words(shown, file) == "no RDP target found in "@ + file,
        ConfigError::NotAnRdpTarget.words(shown, file) == "selected target is not an RDP target"@,
        ConfigError::MissingHost.words(shown, file)
            == "--host or RDPWEB_HOST is required when --config is omitted"@,
        ConfigError::MissingUsername.words(shown, file)
            == "--username or RDPWEB_USERNAME is required when --config is omitted"@,
        ConfigError::MissingPassword.words(shown, file)
            == "--password or RDPWEB_PASSWORD is required when --config is omitted"@,
        ConfigError::EmptyHost.words(shown, file) == "RDP host is empty"@,
        ConfigError::EmptyUsername.words(shown, file) == "RDP username is empty"@,
        ConfigError::EmptyDesktop.words(shown, file) == "RDP desktop size must be non-zero"@,
{
}

/// A target is an RDP target when it says so, in these letters, or when it says nothing.
pub proof fn law_rdp_targets_say_so(target: TargetView)
    ensures
        target.is_rdp() <==> (target.protocol matches Some(protocol) ==> protocol == "rdp"@),
        target.is_rdp() <==> rdp_or_none(target),
{
}

} // verus!
