//! What the run tells its user, and the text of each message.

use vstd::prelude::*;
use crate::inventory::ListingError;
use crate::manager::PackageManagerKind;
use crate::remove::OperationOutcome;
use crate::text::texts;

verus! {

/// One message of the run.
#[derive(Clone, Debug, PartialEq, Eq)]
pub enum Notice {
    /// The title, printed first.
    Banner,
    /// Which package manager the run goes on with.
    Detected { kind: PackageManagerKind },
    /// The installed packages could not be listed; the run ends here.
    ListingFailed { error: ListingError },
    /// How many packages are installed.
    InstalledCount { count: usize },
    /// Every installed package is offered by a repository.
    AllExist,
    /// The packages that no repository offers.
    MissingFound { names: Vec<String> },
    /// The removals begin.
    RemovalStarts,
    /// What became of the removal of one package.
    Removal { package: String, outcome: OperationOutcome },
    /// The run is over.
    Completed,
}

/// A message as plain values.
pub enum NoticeView {
    Banner,
    Detected { kind: PackageManagerKind },
    ListingFailed { error: ListingError },
    InstalledCount { count: nat },
    AllExist,
    MissingFound { names: Seq<Seq<char>> },
    RemovalStarts,
    Removal { package: Seq<char>, outcome: OperationOutcome },
    Completed,
}

impl View for Notice {
    type V = NoticeView;

    open spec fn view(&self) -> NoticeView {
        match self {
            Notice::Banner => NoticeView::Banner,
            Notice::Detected { kind } => NoticeView::Detected { kind: *kind },
            Notice::ListingFailed { error } => NoticeView::ListingFailed { error: *error },
            Notice::InstalledCount { count } => NoticeView::InstalledCount { count: *count as nat },
            Notice::AllExist => NoticeView::AllExist,
            Notice::MissingFound { names } => NoticeView::MissingFound { names: texts(names@) },
            Notice::RemovalStarts => NoticeView::RemovalStarts,
            Notice::Removal { package, outcome } => NoticeView::Removal { package: package@, outcome: *outcome },
            Notice::Completed => NoticeView::Completed,
        }
    }
}

/// The messages of a list, each as plain values.
pub open spec fn notice_views(notices: Seq<Notice>) -> Seq<NoticeView> {
    Seq::new(notices.len(), |i: int| notices[i]@)
}

/// The decimal digit for a number below ten.
pub open spec fn digit(value: nat) -> char {
    if value == 0 {
        '0'
    } else if value == 1 {
        '1'
    } else if value == 2 {
        '2'
    } else if value == 3 {
        '3'
    } else if value == 4 {
        '4'
    } else if value == 5 {
        '5'
    } else if value == 6 {
        '6'
    } else if value == 7 {
        '7'
    } else if value == 8 {
        '8'
    } else {
        '9'
    }
}

/// A number in decimal digits, without leading zeros.
pub open spec fn decimal(value: nat) -> Seq<char>
    decreases value,
{
    if value < 10 {
        seq![digit(value)]
    } else {
        decimal(value / 10).push(digit(value % 10))
    }
}

/// The lines that name the missing packages, each begun by a line feed.
pub open spec fn bullet_lines(names: Seq<Seq<char>>) -> Seq<char>
    decreases names.len(),
{
    if names.len() == 0 {
        Seq::empty()
    } else {
        bullet_lines(names.drop_last()) + "\n  - "@ + names.last()
    }
}

/// Why a listing failed, in words.
pub open spec fn spec_describe(error: ListingError) -> Seq<char> {
    match error {
        ListingError::SpawnFailed { reason } => reason@,
        ListingError::NotText => "stream did not contain valid UTF-8"@,
    }
}

/// The text of a message. It may span several lines, and does not end with the
/// line feed that ends the message when it is printed.
pub open spec fn spec_render(notice: NoticeView) -> Seq<char> {
    match notice {
        NoticeView::Banner =>
            "🗑️  Package Uninstaller - Remove Non-Existent Packages\n======================================================\n"@,
        NoticeView::Detected { kind } => "Detected package manager: "@ + kind.spec_name() + "\n"@,
        NoticeView::ListingFailed { error } => "Error getting installed packages: "@ + spec_describe(error),
        NoticeView::InstalledCount { count } => "Found "@ + decimal(count) + " installed packages\n"@,
        NoticeView::AllExist => "✓ All installed packages exist in repositories!"@,
        NoticeView::MissingFound { names } => "Found "@ + decimal(names.len()) + " non-existent packages:"@
            + bullet_lines(names),
        NoticeView::RemovalStarts => "\nAttempting to uninstall non-existent packages...\n"@,
        NoticeView::Removal { package, outcome } => match outcome {
            OperationOutcome::Uninstalled => "✓ Uninstalled: "@ + package,
            OperationOutcome::Failed { reason } => "✗ Failed to uninstall "@ + package + ": "@ + reason@,
        },
        NoticeView::Completed => "\n✓ Operation completed!"@,
    }
}

/// Whether a message reports an error, and so belongs on the error stream.
pub open spec fn spec_is_error(notice: NoticeView) -> bool {
    notice is ListingFailed
}

fn digit_text(value: usize) -> (text: &'static str)
    requires
        value < 10,
    ensures
        text@ == seq![digit(value as nat)],
{
    proof {
        reveal_strlit("0");
        reveal_strlit("1");
        reveal_strlit("2");
        reveal_strlit("3");
        reveal_strlit("4");
        reveal_strlit("5");
        reveal_strlit("6");
        reveal_strlit("7");
        reveal_strlit("8");
        reveal_strlit("9");
    }
    let text = if value == 0 {
        "0"
    } else if value == 1 {
        "1"
    } else if value == 2 {
        "2"
    } else if value == 3 {
        "3"
    } else if value == 4 {
        "4"
    } else if value == 5 {
        "5"
    } else if value == 6 {
        "6"
    } else if value == 7 {
        "7"
    } else if value == 8 {
        "8"
    } else {
        "9"
    };
    assert(text@ =~= seq![digit(value as nat)]);
    text
}

/// Writes a number in decimal digits.
pub fn decimal_string(value: usize) -> (text: String)
    ensures
        text@ == decimal(value as nat),
    decreases value,
{
    if value < 10 {
        digit_text(value).to_owned()
    } else {
        let mut text = decimal_string(value / 10);
        text.append(digit_text(value % 10));
        assert(text@ =~= decimal(value as nat));
        text
    }
}

impl ListingError {
    /// Says in words why the listing failed.
    pub fn describe(&self) -> (text: String)
        ensures
            text@ == spec_describe(*self),
    {
        match self {
            ListingError::SpawnFailed { reason } => reason.clone(),
            ListingError::NotText => "stream did not contain valid UTF-8".to_owned(),
        }
    }
}

fn bullets(names: &Vec<String>) -> (text: String)
    ensures
        text@ == bullet_lines(texts(names@)),
{
    let mut text = String::new();
    let mut index: usize = 0;
    assert(texts(names@).take(0) =~= Seq::<Seq<char>>::empty());
    while index < names.len()
        invariant
            index <= names.len(),
            text@ == bullet_lines(texts(names@).take(index as int)),
        decreases names.len() - index,
    {
        assert(texts(names@).take(index + 1).drop_last() =~= texts(names@).take(index as int));
        text.append("\n  - ");
        text.append(names[index].as_str());
        index += 1;
    }
    assert(texts(names@).take(index as int) =~= texts(names@));
    text
}

impl Notice {
    /// The text of this message, without the line feed that ends it in print.
    pub fn render(&self) -> (text: String)
        ensures
            text@ == spec_render(self@),
    {
        match self {
            Notice::Banner =>
                "🗑️  Package Uninstaller - Remove Non-Existent Packages\n======================================================\n".to_owned(),
            Notice::Detected { kind } => {
                let mut text = "Detected package manager: ".to_owned();
                text.append(kind.name());
                text.append("\n");
                text
            },
            Notice::ListingFailed { error } => {
                let mut text = "Error getting installed packages: ".to_owned();
                text.append(error.describe().as_str());
                text
            },
            Notice::InstalledCount { count } => {
                let mut text = "Found ".to_owned();
                text.append(decimal_string(*count).as_str());
                text.append(" installed packages\n");
                text
            },
            Notice::AllExist => "✓ All installed packages exist in repositories!".to_owned(),
            Notice::MissingFound { names } => {
                let mut text = "Found ".to_owned();
                text.append(decimal_string(names.len()).as_str());
                text.append(" non-existent packages:");
                text.append(bullets(names).as_str());
                text
            },
            Notice::RemovalStarts => "\nAttempting to uninstall non-existent packages...\n".to_owned(),
            Notice::Removal { package, outcome } => match outcome {
                OperationOutcome::Uninstalled => {
                    let mut text = "✓ Uninstalled: ".to_owned();
                    text.append(package.as_str());
                    text
                },
                OperationOutcome::Failed { reason } => {
                    let mut text = "✗ Failed to uninstall ".to_owned();
                    text.append(package.as_str());
                    text.append(": ");
                    text.append(reason.as_str());
                    text
                },
            },
            Notice::Completed => "\n✓ Operation completed!".to_owned(),
        }
    }

    /// Whether this message belongs on the error stream.
    pub fn is_error(&self) -> (error: bool)
        ensures
            error == spec_is_error(self@),
    {
        match self {
            Notice::ListingFailed { .. } => true,
            _ => false,
        }
    }
}

} // verus!
