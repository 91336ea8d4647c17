use crate::error::Error;
use crate::error::ErrorView;
use crate::text::decode;
use crate::text::same;
use vstd::prelude::*;
use vstd::utf8::decode_utf8;
use vstd::utf8::valid_utf8;

verus! {

/// A node of a concrete syntax tree, as a parser of the source language leaves it: the
/// kind of the node, the bytes of the source that it spans, the name of the field of its
/// parent that it fills, if any, and all its children in source order, tokens included.
#[derive(Debug)]
pub struct SyntaxNode {
    pub kind: String,
    pub field_name: Option<String>,
    pub start_byte: usize,
    pub end_byte: usize,
    pub children: Vec<SyntaxNode>,
}

impl SyntaxNode {
    /// The node and every node below it spans bytes of a source of `len` bytes.
    pub open spec fn spans_within(self, len: nat) -> bool
        decreases self,
    {
        &&& self.start_byte <= self.end_byte <= len
        &&& forall|i: int|
            0 <= i < self.children.len() ==> (#[trigger] self.children[i]).spans_within(len)
    }

    /// Whether the node fills the field `name` of its parent.
    pub open spec fn fills(self, name: Seq<char>) -> bool {
        self.field_name matches Some(field) && field@ == name
    }

    /// The position of the first child that fills the field `name`, among the first `k`
    /// children.
    pub open spec fn field_index(self, name: Seq<char>, k: nat) -> Option<int>
        decreases k,
    {
        if k == 0 || k > self.children.len() {
            None
        } else {
            match self.field_index(name, (k - 1) as nat) {
                Some(i) => Some(i),
                None => if self.children[k - 1].fills(name) {
                    Some(k - 1)
                } else {
                    None
                },
            }
        }
    }

    /// The first child that fills the field `name`.
    pub open spec fn field(self, name: Seq<char>) -> Option<SyntaxNode> {
        match self.field_index(name, self.children.len() as nat) {
            Some(i) => Some(self.children[i]),
            None => None,
        }
    }

    /// The text that the node spans in `content`, where that is valid UTF-8.
    pub open spec fn text(self, content: Seq<u8>) -> Result<Seq<char>, ErrorView> {
        let bytes = content.subrange(self.start_byte as int, self.end_byte as int);
        if valid_utf8(bytes) {
            Ok(decode_utf8(bytes))
        } else {
            Err(ErrorView::UTF8)
        }
    }

    /// Whether the node spans bytes of a source of `len` bytes, and every node below it
    /// too.
    pub fn check_spans(&self, len: usize) -> (r: bool)
        ensures
            r == self.spans_within(len as nat),
        decreases self,
    {
        if !(self.start_byte <= self.end_byte && self.end_byte <= len) {
            return false;
        }
        let mut i: usize = 0;
        while i < self.children.len()
            invariant
                i <= self.children.len(),
                forall|k: int| 0 <= k < i ==> (#[trigger] self.children[k]).spans_within(len as nat),
            decreases self.children.len() - i,
        {
            if !self.children[i].check_spans(len) {
                return false;
            }
            i += 1;
        }
        true
    }

    /// Whether the node is of the kind `kind`.
    pub fn is(&self, kind: &str) -> (r: bool)
        ensures
            r == (self.kind@ == kind@),
    {
        same(self.kind.as_str(), kind)
    }

    /// The first child that fills the field `name`.
    pub fn child_by_field_name(&self, name: &str) -> (r: Option<&SyntaxNode>)
        ensures
            r matches Some(child) ==> self.field(name@) == Some(*child),
            r is None ==> self.field(name@) is None,
            r matches Some(child) ==> forall|len: nat|
                self.spans_within(len) ==> #[trigger] child.spans_within(len),
    {
        let mut i: usize = 0;
        while i < self.children.len()
            invariant
                i <= self.children.len(),
                self.field_index(name@, i as nat) is None,
            decreases self.children.len() - i,
        {
            let found = match &self.children[i].field_name {
                Some(field) => same(field.as_str(), name),
                None => false,
            };
            if found {
                proof {
                    self.field_index_stays(name@, (i + 1) as nat, self.children.len() as nat);
                }
                return Some(&self.children[i]);
            }
            i += 1;
        }
        None
    }

    /// The first child that fills a field stays the first when more children are looked
    /// at.
    pub proof fn field_index_stays(self, name: Seq<char>, k: nat, n: nat)
        requires
            k <= n <= self.children.len(),
            self.field_index(name, k) is Some,
        ensures
            self.field_index(name, n) == self.field_index(name, k),
        decreases n,
    {
        if k < n {
            self.field_index_stays(name, k, (n - 1) as nat);
        }
    }

    /// A child that fills a field is one of the children looked at, and fills the field.
    pub proof fn field_index_is_child(self, name: Seq<char>, k: nat)
        requires
            k <= self.children.len(),
        ensures
            self.field_index(name, k) matches Some(i) ==> 0 <= i < k && self.children[i].fills(name),
        decreases k,
    {
        if k > 0 {
            self.field_index_is_child(name, (k - 1) as nat);
        }
    }

    /// The text that the node spans in `content`.
    pub fn utf8_text(&self, content: &[u8]) -> (r: Result<String, Error>)
        requires
            self.spans_within(content@.len()),
        ensures
            match r {
                Ok(text) => self.text(content@) == Ok::<Seq<char>, ErrorView>(text@),
                Err(e) => self.text(content@) == Err::<Seq<char>, ErrorView>(e@),
            },
    {
        let bytes = vstd::slice::slice_subrange(content, self.start_byte, self.end_byte);
        match decode(bytes) {
            Ok(text) => Ok(text),
            Err(e) => Err(Error::UTF8(e)),
        }
    }
}

} // verus!
