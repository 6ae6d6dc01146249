//! From a template and its arguments to what the renderer needs: the
//! context and the body.

use vstd::prelude::*;

use crate::context::{build_context, context_of, Context, Entries};
use crate::error::{SshdCommandError, SshdCommandErrorView};
use crate::frontmatter::{parsed, FrontMatter};
use crate::user::AccountView;
use crate::version::{this_version, Version};

verus! {

/// What a template and its arguments give the renderer, for the running
/// version `running`: the context, and the index at which the body starts.
/// The template is read, then its front matter is checked, then the context
/// is built; the first error counts. `account` and `hostname` are what the
/// system returns where the front matter has it asked.
pub open spec fn rendering(
    input: Seq<u8>,
    args: Seq<Seq<char>>,
    running: Version,
    account: Option<AccountView>,
    hostname: Option<Seq<char>>,
) -> Result<(Entries, usize), SshdCommandErrorView> {
    match parsed(input) {
        Err(error) => Err(SshdCommandErrorView::FrontMatter(error)),
        Ok((front_matter, body)) => match front_matter.sshd_command.validated(running) {
            Err(error) => Err(SshdCommandErrorView::FrontMatter(error)),
            Ok(()) => match context_of(front_matter, args, account, hostname) {
                Err(error) => Err(error),
                Ok(entries) => Ok((entries, body)),
            },
        },
    }
}

/// Reads and checks the template and builds the context from its
/// arguments. With the context comes the index at which the body of the
/// template starts: the bytes from there on are for the renderer.
///
/// Whatever the system returns for the user and for the host's name, the
/// result is what [`rendering`] gives for it.
pub fn render_context(args: Vec<String>, template: &[u8]) -> (r: Result<
    (Context, usize),
    SshdCommandError,
>)
    ensures
        exists|account: Option<AccountView>, hostname: Option<Seq<char>>|
            match #[trigger] rendering(
                template@,
                args.deep_view(),
                this_version(),
                account,
                hostname,
            ) {
                Ok((entries, body)) => r matches Ok(found) && found.0@ == entries && found.1
                    == body && body <= template@.len(),
                Err(error) => r matches Err(e) && e@ == error,
            },
{
    let ghost a = args.deep_view();
    let ghost running = this_version();
    let (front_matter, body) = match FrontMatter::parse(template) {
        Ok(read) => read,
        Err(error) => {
            proof {
                assert(rendering(template@, a, running, None, None) is Err);
            }
            return Err(SshdCommandError::FrontMatter(error));
        },
    };
    match front_matter.validate() {
        Ok(()) => {},
        Err(error) => {
            proof {
                assert(rendering(template@, a, running, None, None) is Err);
            }
            return Err(SshdCommandError::FrontMatter(error));
        },
    }
    let ghost fm = front_matter@;
    match build_context(front_matter, args) {
        Ok(context) => {
            proof {
                let (account, hostname) = choose|
                    account: Option<AccountView>,
                    hostname: Option<Seq<char>>,
                |
                    match #[trigger] context_of(fm, a, account, hostname) {
                        Ok(entries) => context@ == entries,
                        Err(error) => false,
                    };
                assert(rendering(template@, a, running, account, hostname) is Ok);
            }
            Ok((context, body))
        },
        Err(error) => {
            proof {
                let (account, hostname) = choose|
                    account: Option<AccountView>,
                    hostname: Option<Seq<char>>,
                |
                    match #[trigger] context_of(fm, a, account, hostname) {
                        Ok(entries) => false,
                        Err(e) => error@ == e,
                    };
                assert(rendering(template@, a, running, account, hostname) is Err);
            }
            Err(error)
        },
    }
}

} // verus!
