//! The user that a template is rendered for.

use vstd::prelude::*;

use crate::error::{SshdCommandError, SshdCommandErrorView};
use crate::text::{decimal, to_decimal};
use crate::tokens::Token;

verus! {

/// A group that a user belongs to.
#[derive(PartialEq, Eq, Debug)]
pub struct Group {
    pub gid: u32,
    pub name: String,
}

impl View for Group {
    type V = (u32, Seq<char>);

    open spec fn view(&self) -> (u32, Seq<char>) {
        (self.gid, self.name@)
    }
}

/// The groups of `groups` as values of mathematics.
pub open spec fn groups_view(groups: Seq<Group>) -> Seq<(u32, Seq<char>)> {
    groups.map_values(|g: Group| g@)
}

/// An [`Account`] as a value of mathematics.
pub struct AccountView {
    pub uid: u32,
    pub gid: u32,
    pub name: Seq<char>,
    pub groups: Seq<(u32, Seq<char>)>,
}

/// A [`User`] as a value of mathematics.
pub struct UserView {
    pub gid: Option<u32>,
    pub groups: Option<Seq<(u32, Seq<char>)>>,
    pub name: Option<Seq<char>>,
    pub uid: Option<u32>,
}

/// What the system's directory of users knows of one user.
#[derive(PartialEq, Eq, Debug)]
pub struct Account {
    pub uid: u32,
    /// The user's primary group.
    pub gid: u32,
    pub name: String,
    pub groups: Vec<Group>,
}

/// The user as the rendering context shows it. Each part is there once it is
/// known.
#[derive(PartialEq, Eq, Debug)]
pub struct User {
    pub gid: Option<u32>,
    pub groups: Option<Vec<Group>>,
    pub name: Option<String>,
    pub uid: Option<u32>,
}

impl View for Account {
    type V = AccountView;

    open spec fn view(&self) -> AccountView {
        AccountView {
            uid: self.uid,
            gid: self.gid,
            name: self.name@,
            groups: groups_view(self.groups@),
        }
    }
}

impl View for User {
    type V = UserView;

    open spec fn view(&self) -> UserView {
        UserView {
            gid: self.gid,
            groups: match self.groups {
                Some(groups) => Some(groups_view(groups@)),
                None => None,
            },
            name: match self.name {
                Some(name) => Some(name@),
                None => None,
            },
            uid: self.uid,
        }
    }
}

/// The account behind `account`, as a value of mathematics.
pub open spec fn account_view(account: Option<Account>) -> Option<AccountView> {
    match account {
        Some(found) => Some(found@),
        None => None,
    }
}

impl UserView {
    /// The user of whom nothing is known.
    pub open spec fn unknown() -> UserView {
        UserView { gid: None, groups: None, name: None, uid: None }
    }

    /// The token by whose argument the user is looked up: the numeric id
    /// where it is known, else the name. `None` where neither is known.
    pub open spec fn lookup_token(self) -> Option<Token> {
        if self.uid.is_some() {
            Some(Token::UserId)
        } else if self.name.is_some() {
            Some(Token::UserName)
        } else {
            None
        }
    }

    /// The argument by which the user is looked up, as text.
    pub open spec fn lookup_text(self) -> Seq<char> {
        if self.uid.is_some() {
            decimal(self.uid.unwrap() as nat)
        } else if self.name.is_some() {
            self.name.unwrap()
        } else {
            Seq::empty()
        }
    }

    /// The user with what `account` adds: the group and the groups from the
    /// account, the id and the name from the account where they were not
    /// known.
    pub open spec fn completed(self, account: AccountView) -> UserView {
        UserView {
            gid: Some(account.gid),
            groups: Some(account.groups),
            name: Some(
                if self.name.is_some() {
                    self.name.unwrap()
                } else {
                    account.name
                },
            ),
            uid: Some(
                if self.uid.is_some() {
                    self.uid.unwrap()
                } else {
                    account.uid
                },
            ),
        }
    }

    /// What completing the user gives where the directory returned
    /// `account`: an error where neither id nor name is known, the token and
    /// the argument of the lookup where the directory knows no such user,
    /// else the completed user.
    pub open spec fn completion(self, account: Option<AccountView>) -> Result<
        UserView,
        SshdCommandErrorView,
    > {
        match (self.lookup_token(), account) {
            (None, _) => Err(SshdCommandErrorView::Unknown("Failed to complete user"@)),
            (Some(token), None) => Err(
                SshdCommandErrorView::IdentityLookup(token, self.lookup_text()),
            ),
            (Some(_), Some(found)) => Ok(self.completed(found)),
        }
    }
}

/// A completed user is known in full: id, name, group and groups.
pub proof fn lemma_completed_user_is_whole(user: UserView, account: Option<AccountView>)
    ensures
        user.completion(account) matches Ok(done) ==> done.uid.is_some() && done.name.is_some()
            && done.gid.is_some() && done.groups.is_some(),
        user.completion(account) is Ok <==> user.lookup_token().is_some() && account.is_some(),
{
}

impl Default for User {
    /// The user of whom nothing is known.
    fn default() -> (r: User)
        ensures
            r@ == UserView::unknown(),
    {
        User { gid: None, groups: None, name: None, uid: None }
    }
}

/// `uzers::get_current_uid`: the id of the user that runs this process.
/// Nothing is claimed of it.
#[verifier::external_body]
fn current_uid() -> u32 {
    uzers::get_current_uid()
}

/// `uzers::get_current_username`: the name of the user that runs this
/// process, where the directory knows that user and the name is Unicode.
/// Nothing is claimed of it.
#[verifier::external_body]
fn current_username() -> Option<String> {
    uzers::get_current_username().and_then(|name| name.into_string().ok())
}

/// `uzers::get_user_by_uid`, with `uzers::User::groups` for the groups: what
/// the directory knows of the user with the id `uid`, names made Unicode
/// where they are not. `None` where it knows no such user. Nothing is claimed
/// of it.
#[verifier::external_body]
fn account_by_uid(uid: u32) -> Option<Account> {
    let user = uzers::get_user_by_uid(uid)?;
    let groups = user.groups().unwrap_or_default();
    Some(Account {
        uid: user.uid(),
        gid: user.primary_group_id(),
        name: user.name().to_string_lossy().into_owned(),
        groups: groups.iter().map(|g| Group {
            gid: g.gid(),
            name: g.name().to_string_lossy().into_owned(),
        }).collect(),
    })
}

/// `uzers::get_user_by_name`, with `uzers::User::groups` for the groups:
/// what the directory knows of the user with the name `name`, names made
/// Unicode where they are not. `None` where it knows no such user. Nothing is
/// claimed of it.
#[verifier::external_body]
fn account_by_name(name: &str) -> Option<Account> {
    let user = uzers::get_user_by_name(name)?;
    let groups = user.groups().unwrap_or_default();
    Some(Account {
        uid: user.uid(),
        gid: user.primary_group_id(),
        name: user.name().to_string_lossy().into_owned(),
        groups: groups.iter().map(|g| Group {
            gid: g.gid(),
            name: g.name().to_string_lossy().into_owned(),
        }).collect(),
    })
}

impl User {
    /// Completes the user from what the directory returned for it. Where
    /// that fails, the user is as before.
    pub fn complete_from(&mut self, account: Option<Account>) -> (r: Result<(), SshdCommandError>)
        ensures
            match old(self)@.completion(account_view(account)) {
                Ok(done) => r is Ok && final(self)@ == done,
                Err(error) => r matches Err(e) && e@ == error && final(self)@ == old(self)@,
            },
    {
        let found = match account {
            Some(found) => found,
            None => {
                return match self.uid {
                    Some(uid) => Err(
                        SshdCommandError::IdentityLookup(Token::UserId, to_decimal(uid as u64)),
                    ),
                    None => match &self.name {
                        Some(name) => Err(
                            SshdCommandError::IdentityLookup(Token::UserName, name.clone()),
                        ),
                        None => Err(SshdCommandError::from("Failed to complete user")),
                    },
                };
            },
        };
        if self.uid.is_none() {
            if self.name.is_none() {
                return Err(SshdCommandError::from("Failed to complete user"));
            }
            self.uid = Some(found.uid);
        } else if self.name.is_none() {
            self.name = Some(found.name);
        }
        self.gid = Some(found.gid);
        self.groups = Some(found.groups);
        Ok(())
    }

    /// What the directory knows of the user: looked up by the id where it is
    /// known, else by the name.
    pub fn lookup(&self) -> (r: Option<Account>)
        ensures
            self@.lookup_token().is_none() ==> r.is_none(),
    {
        match self.uid {
            Some(uid) => account_by_uid(uid),
            None => match &self.name {
                Some(name) => account_by_name(name.as_str()),
                None => None,
            },
        }
    }

    /// Completes the user from the system's directory of users.
    ///
    /// Fails where neither id nor name is known, and where the directory
    /// knows no such user; the user is then as before. Whatever the
    /// directory returns, the outcome is the completion by what it returned.
    pub fn complete(&mut self) -> (r: Result<(), SshdCommandError>)
        ensures
            exists|account: Option<AccountView>|
                match #[trigger] old(self)@.completion(account) {
                    Ok(done) => r is Ok && final(self)@ == done,
                    Err(error) => r matches Err(e) && e@ == error && final(self)@ == old(
                        self,
                    )@,
                },
            old(self)@.lookup_token().is_none() ==> (r matches Err(e) && e@
                == SshdCommandErrorView::Unknown("Failed to complete user"@)),
    {
        let account = self.lookup();
        let ghost found = account_view(account);
        let r = self.complete_from(account);
        proof {
            let outcome = old(self)@.completion(found);
            assert(match outcome {
                Ok(done) => r is Ok && self@ == done,
                Err(error) => r matches Err(e) && e@ == error && self@ == old(self)@,
            });
        }
        r
    }

    /// The id of the user that runs this process.
    pub fn get_current_uid() -> u32 {
        current_uid()
    }

    /// The name that stands for the user where the directory knows none.
    pub open spec fn unknown_name() -> Seq<char> {
        "unkown"@
    }

    /// The name of the user that runs this process, or `found` where the
    /// directory gave one.
    pub fn current_name_from(found: Option<String>) -> (r: String)
        ensures
            r@ == match found {
                Some(name) => name@,
                None => User::unknown_name(),
            },
    {
        match found {
            Some(name) => name,
            None => "unkown".to_owned(),
        }
    }

    /// The name of the user that runs this process; `unkown` where the
    /// directory knows none.
    pub fn get_current_name() -> String {
        User::current_name_from(current_username())
    }
}

} // verus!
