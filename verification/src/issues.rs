//! Newsletter issues and the archive that keeps them.

use crate::table::{
    as_map, has_key, keys_unique, lemma_domain, lemma_lookup, lemma_push, lemma_size,
};
use vstd::prelude::*;

verus! {

/// A published issue. It never changes once it is stored.
#[derive(Debug)]
pub struct NewsletterIssue {
    pub issue_id: u128,
    pub title: String,
    pub text_content: String,
    pub html_content: String,
    /// Seconds since the epoch at which the issue was stored.
    pub published_at: i64,
}

/// What an issue holds besides its identifier.
pub struct IssueModel {
    pub title: Seq<char>,
    pub text_content: Seq<char>,
    pub html_content: Seq<char>,
    pub published_at: i64,
}

/// The archive as a map from identifier to issue.
pub type ArchiveModel = Map<u128, IssueModel>;

impl View for NewsletterIssue {
    type V = IssueModel;

    open spec fn view(&self) -> IssueModel {
        IssueModel {
            title: self.title@,
            text_content: self.text_content@,
            html_content: self.html_content@,
            published_at: self.published_at,
        }
    }
}

impl NewsletterIssue {
    /// An issue with the same identifier and contents.
    pub fn duplicate(&self) -> (copy: NewsletterIssue)
        ensures
            copy.issue_id == self.issue_id,
            copy@ == self@,
    {
        NewsletterIssue {
            issue_id: self.issue_id,
            title: self.title.clone(),
            text_content: self.text_content.clone(),
            html_content: self.html_content.clone(),
            published_at: self.published_at,
        }
    }
}

/// The stored issues. A well-formed archive has no identifier twice.
#[derive(Debug)]
pub struct Archive {
    issues: Vec<NewsletterIssue>,
}

impl View for Archive {
    type V = ArchiveModel;

    closed spec fn view(&self) -> ArchiveModel {
        as_map(self.row_models())
    }
}

impl Archive {
    /// The rows as pairs of key and value.
    spec fn row_models(&self) -> Seq<(u128, IssueModel)> {
        Seq::new(self.issues@.len(), |i: int| (self.issues@[i].issue_id, self.issues@[i]@))
    }

    /// No identifier occurs twice.
    pub closed spec fn wf(&self) -> bool {
        keys_unique(self.row_models())
    }

    /// An archive without issues.
    pub fn new() -> (archive: Archive)
        ensures
            archive.wf(),
            archive@ == Map::<u128, IssueModel>::empty(),
    {
        let archive = Archive { issues: Vec::new() };
        assert(archive.row_models() =~= Seq::empty());
        archive
    }

    /// How many issues are stored.
    pub fn len(&self) -> (count: usize)
        requires
            self.wf(),
        ensures
            self@.dom().finite(),
            count == self@.dom().len(),
    {
        proof {
            lemma_size(self.row_models());
        }
        self.issues.len()
    }

    fn position(&self, issue_id: u128) -> (at: Option<usize>)
        ensures
            match at {
                Some(i) => i < self.issues@.len() && self.row_models()[i as int].0 == issue_id,
                None => !has_key(self.row_models(), issue_id),
            },
    {
        let mut i: usize = 0;
        while i < self.issues.len()
            invariant
                i <= self.issues@.len(),
                forall|k: int| 0 <= k < i ==> (#[trigger] self.row_models()[k]).0 != issue_id,
            decreases self.issues@.len() - i,
        {
            if self.issues[i].issue_id == issue_id {
                return Some(i);
            }
            i += 1;
        }
        None
    }

    /// Whether an issue with this identifier is stored.
    pub fn contains(&self, issue_id: u128) -> (present: bool)
        requires
            self.wf(),
        ensures
            present == self@.dom().contains(issue_id),
    {
        proof {
            lemma_domain(self.row_models(), issue_id);
        }
        self.position(issue_id).is_some()
    }

    /// The issue with this identifier, if it is stored.
    pub fn get(&self, issue_id: u128) -> (found: Option<NewsletterIssue>)
        requires
            self.wf(),
        ensures
            found is Some <==> self@.dom().contains(issue_id),
            found is Some ==> found->0.issue_id == issue_id && found->0@ == self@[issue_id],
    {
        proof {
            lemma_domain(self.row_models(), issue_id);
        }
        match self.position(issue_id) {
            None => None,
            Some(i) => {
                proof {
                    lemma_lookup(self.row_models(), i as int);
                }
                Some(self.issues[i].duplicate())
            },
        }
    }

    /// Stores `issue` unless its identifier is taken; says whether it did.
    pub fn insert(&mut self, issue: NewsletterIssue) -> (stored: bool)
        requires
            old(self).wf(),
        ensures
            final(self).wf(),
            stored == !old(self)@.dom().contains(issue.issue_id),
            stored ==> final(self)@ == old(self)@.insert(issue.issue_id, issue@),
            !stored ==> final(self)@ == old(self)@,
    {
        proof {
            lemma_domain(self.row_models(), issue.issue_id);
        }
        match self.position(issue.issue_id) {
            Some(_) => false,
            None => {
                let ghost rows = self.row_models();
                let ghost id = issue.issue_id;
                let ghost model = issue@;
                self.issues.push(issue);
                proof {
                    lemma_push(rows, id, model);
                    assert(self.row_models() =~= rows.push((id, model)));
                }
                true
            },
        }
    }
}

} // verus!
