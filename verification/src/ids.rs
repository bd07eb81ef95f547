use vstd::prelude::*;

verus! {

/// A strongly typed identifier for a room.
///
/// The four identifier types below wrap the identifier text so that the type
/// system keeps room, user, stream and track handles apart. A value is viewed
/// as its character sequence. The text is owned directly rather than behind
/// a shared-ownership handle: every contract here needs a clone to be
/// provably equal to its source, and the owned string's clone is the one
/// whose specification gives that.
#[derive(Debug)]
pub struct RoomId {
    pub value: String,
}

/// A strongly typed identifier for a user.
#[derive(Debug)]
pub struct UserId {
    pub value: String,
}

/// A strongly typed identifier for a media stream.
#[derive(Debug)]
pub struct StreamId {
    pub value: String,
}

/// A strongly typed identifier for a media track.
#[derive(Debug)]
pub struct TrackId {
    pub value: String,
}

impl View for RoomId {
    type V = Seq<char>;

    open spec fn view(&self) -> Seq<char> {
        self.value@
    }
}

impl RoomId {
    /// Borrow the identifier text.
    pub fn as_str(&self) -> (r: &str)
        ensures
            r@ == self@,
    {
        self.value.as_str()
    }

    /// The identifier text as an owned string.
    pub fn text(&self) -> (r: String)
        ensures
            r@ == self@,
    {
        self.value.clone()
    }
}

impl Clone for RoomId {
    fn clone(&self) -> (r: Self)
        ensures
            r == *self,
    {
        RoomId { value: self.value.clone() }
    }
}

impl From<String> for RoomId {
    fn from(s: String) -> (r: Self) {
        RoomId { value: s }
    }
}

impl vstd::std_specs::convert::FromSpecImpl<String> for RoomId {
    open spec fn obeys_from_spec() -> bool {
        true
    }

    open spec fn from_spec(s: String) -> Self {
        RoomId { value: s }
    }
}

impl From<&str> for RoomId {
    fn from(s: &str) -> (r: Self)
        ensures
            r@ == s@,
    {
        RoomId { value: s.to_owned() }
    }
}

impl vstd::std_specs::convert::FromSpecImpl<&str> for RoomId {
    open spec fn obeys_from_spec() -> bool {
        false
    }

    open spec fn from_spec(s: &str) -> Self {
        arbitrary()
    }
}

impl PartialEq for RoomId {
    fn eq(&self, other: &Self) -> (r: bool) {
        self.value == other.value
    }
}

impl vstd::std_specs::cmp::PartialEqSpecImpl for RoomId {
    open spec fn obeys_eq_spec() -> bool {
        true
    }

    open spec fn eq_spec(&self, other: &Self) -> bool {
        self@ == other@
    }
}

impl View for UserId {
    type V = Seq<char>;

    open spec fn view(&self) -> Seq<char> {
        self.value@
    }
}

impl UserId {
    /// Borrow the identifier text.
    pub fn as_str(&self) -> (r: &str)
        ensures
            r@ == self@,
    {
        self.value.as_str()
    }

    /// The identifier text as an owned string.
    pub fn text(&self) -> (r: String)
        ensures
            r@ == self@,
    {
        self.value.clone()
    }
}

impl Clone for UserId {
    fn clone(&self) -> (r: Self)
        ensures
            r == *self,
    {
        UserId { value: self.value.clone() }
    }
}

impl From<String> for UserId {
    fn from(s: String) -> (r: Self) {
        UserId { value: s }
    }
}

impl vstd::std_specs::convert::FromSpecImpl<String> for UserId {
    open spec fn obeys_from_spec() -> bool {
        true
    }

    open spec fn from_spec(s: String) -> Self {
        UserId { value: s }
    }
}

impl From<&str> for UserId {
    fn from(s: &str) -> (r: Self)
        ensures
            r@ == s@,
    {
        UserId { value: s.to_owned() }
    }
}

impl vstd::std_specs::convert::FromSpecImpl<&str> for UserId {
    open spec fn obeys_from_spec() -> bool {
        false
    }

    open spec fn from_spec(s: &str) -> Self {
        arbitrary()
    }
}

impl PartialEq for UserId {
    fn eq(&self, other: &Self) -> (r: bool) {
        self.value == other.value
    }
}

impl vstd::std_specs::cmp::PartialEqSpecImpl for UserId {
    open spec fn obeys_eq_spec() -> bool {
        true
    }

    open spec fn eq_spec(&self, other: &Self) -> bool {
        self@ == other@
    }
}

impl View for StreamId {
    type V = Seq<char>;

    open spec fn view(&self) -> Seq<char> {
        self.value@
    }
}

impl StreamId {
    /// Borrow the identifier text.
    pub fn as_str(&self) -> (r: &str)
        ensures
            r@ == self@,
    {
        self.value.as_str()
    }

    /// The identifier text as an owned string.
    pub fn text(&self) -> (r: String)
        ensures
            r@ == self@,
    {
        self.value.clone()
    }
}

impl Clone for StreamId {
    fn clone(&self) -> (r: Self)
        ensures
            r == *self,
    {
        StreamId { value: self.value.clone() }
    }
}

impl From<String> for StreamId {
    fn from(s: String) -> (r: Self) {
        StreamId { value: s }
    }
}

impl vstd::std_specs::convert::FromSpecImpl<String> for StreamId {
    open spec fn obeys_from_spec() -> bool {
        true
    }

    open spec fn from_spec(s: String) -> Self {
        StreamId { value: s }
    }
}

impl From<&str> for StreamId {
    fn from(s: &str) -> (r: Self)
        ensures
            r@ == s@,
    {
        StreamId { value: s.to_owned() }
    }
}

impl vstd::std_specs::convert::FromSpecImpl<&str> for StreamId {
    open spec fn obeys_from_spec() -> bool {
        false
    }

    open spec fn from_spec(s: &str) -> Self {
        arbitrary()
    }
}

impl PartialEq for StreamId {
    fn eq(&self, other: &Self) -> (r: bool) {
        self.value == other.value
    }
}

impl vstd::std_specs::cmp::PartialEqSpecImpl for StreamId {
    open spec fn obeys_eq_spec() -> bool {
        true
    }

    open spec fn eq_spec(&self, other: &Self) -> bool {
        self@ == other@
    }
}

impl View for TrackId {
    type V = Seq<char>;

    open spec fn view(&self) -> Seq<char> {
        self.value@
    }
}

impl TrackId {
    /// Borrow the identifier text.
    pub fn as_str(&self) -> (r: &str)
        ensures
            r@ == self@,
    {
        self.value.as_str()
    }

    /// The identifier text as an owned string.
    pub fn text(&self) -> (r: String)
        ensures
            r@ == self@,
    {
        self.value.clone()
    }
}

impl Clone for TrackId {
    fn clone(&self) -> (r: Self)
        ensures
            r == *self,
    {
        TrackId { value: self.value.clone() }
    }
}

impl From<String> for TrackId {
    fn from(s: String) -> (r: Self) {
        TrackId { value: s }
    }
}

impl vstd::std_specs::convert::FromSpecImpl<String> for TrackId {
    open spec fn obeys_from_spec() -> bool {
        true
    }

    open spec fn from_spec(s: String) -> Self {
        TrackId { value: s }
    }
}

impl From<&str> for TrackId {
    fn from(s: &str) -> (r: Self)
        ensures
            r@ == s@,
    {
        TrackId { value: s.to_owned() }
    }
}

impl vstd::std_specs::convert::FromSpecImpl<&str> for TrackId {
    open spec fn obeys_from_spec() -> bool {
        false
    }

    open spec fn from_spec(s: &str) -> Self {
        arbitrary()
    }
}

impl PartialEq for TrackId {
    fn eq(&self, other: &Self) -> (r: bool) {
        self.value == other.value
    }
}

impl vstd::std_specs::cmp::PartialEqSpecImpl for TrackId {
    open spec fn obeys_eq_spec() -> bool {
        true
    }

    open spec fn eq_spec(&self, other: &Self) -> bool {
        self@ == other@
    }
}

} // verus!
