use vstd::prelude::*;

verus! {

/// The host operating system, as far as opening a folder goes.
#[derive(Debug, Clone, Copy, PartialEq, Eq, Structural)]
pub enum Platform {
    Windows,
    MacOs,
    /// Linux and the other POSIX systems.
    Unix,
}

/// The name of the program that opens a folder in the platform's file browser.
pub open spec fn opener_of(p: Platform) -> Seq<char> {
    match p {
        Platform::Windows => "explorer"@,
        Platform::MacOs => "open"@,
        Platform::Unix => "xdg-open"@,
    }
}

/// The program to launch, with the folder as its one argument, to show a
/// folder in the platform's file browser.
pub fn folder_opener(p: Platform) -> (r: &'static str)
    ensures
        r@ == opener_of(p),
{
    match p {
        Platform::Windows => "explorer",
        Platform::MacOs => "open",
        Platform::Unix => "xdg-open",
    }
}

} // verus!
