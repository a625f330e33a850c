//! One-shot handles given to JavaScript: a channel end, a cancel signal or a
//! response body can be used once; a second use is an error that JavaScript
//! sees as an exception.
use vstd::prelude::*;

verus! {

/// A place that holds an item until it is taken; some handles put it back.
pub struct OnceSlot<T> {
    item: Option<T>,
}

impl<T> View for OnceSlot<T> {
    type V = Option<T>;

    closed spec fn view(&self) -> Option<T> {
        self.item
    }
}

impl<T> OnceSlot<T> {
    /// A slot holding `item`.
    pub fn new(item: T) -> (r: OnceSlot<T>)
        ensures
            r@ == Some(item),
    {
        OnceSlot { item: Some(item) }
    }

    /// Takes the item; the slot is then empty, so a second take finds nothing.
    pub fn take(&mut self) -> (r: Option<T>)
        ensures
            r == old(self)@,
            final(self)@ is None,
    {
        self.item.take()
    }

    /// Puts an item (back) into the slot.
    pub fn put_back(&mut self, item: T)
        ensures
            final(self)@ == Some(item),
    {
        self.item = Some(item);
    }

    /// Whether the item has been taken.
    pub fn is_empty(&self) -> (r: bool)
        ensures
            r == (self@ is None),
    {
        self.item.is_none()
    }
}

/// What can go wrong when JavaScript uses a handle.
#[derive(Clone, Copy, Debug, PartialEq, Eq)]
pub enum HandleError {
    /// The handle's lock is held or poisoned ("Mutex Locked").
    MutexLocked,
    /// The lock was poisoned ("Mutex Error").
    MutexError,
    /// A cancel function was called a second time.
    AlreadyCancelled,
    /// A one-shot channel end was used a second time.
    AlreadyResolved,
    /// The other end of a one-shot channel is gone.
    ChannelClosed,
    /// The receiving end of a channel is gone.
    TxChannelClosed,
    /// The sending end of a channel is gone.
    RxChannelClosed,
    /// The cancel signal could not be sent.
    OneshotClosed,
    /// The cancel signal of a callback could not be sent.
    OneshotError,
    /// A callback already holds the receiver.
    CallbackLocked,
    /// A callback was registered before.
    CallbackRegistered,
    /// A response body was read before.
    BodyConsumed,
}

impl HandleError {
    /// The message a JavaScript exception carries for this error.
    pub fn message(&self) -> (r: &'static str)
        ensures
            *self == HandleError::MutexLocked ==> r@ == "Mutex Locked"@,
            *self == HandleError::MutexError ==> r@ == "Mutex Error"@,
            *self == HandleError::AlreadyCancelled ==> r@ == "Already Cancelled"@,
            *self == HandleError::AlreadyResolved ==> r@ == "Already Resolved"@,
            *self == HandleError::ChannelClosed ==> r@ == "Channel Closed"@,
            *self == HandleError::TxChannelClosed ==> r@ == "TX Channel Closed"@,
            *self == HandleError::RxChannelClosed ==> r@ == "RX Channel Closed"@,
            *self == HandleError::OneshotClosed ==> r@ == "Oneshot Channel Closed"@,
            *self == HandleError::OneshotError ==> r@ == "Oneshot Error"@,
            *self == HandleError::CallbackLocked ==> r@ == "Mutex Locked (CB Exists)"@,
            *self == HandleError::CallbackRegistered ==> r@ == "CB Already Registered"@,
            *self == HandleError::BodyConsumed ==> r@ == "Body already consumed"@,
    {
        match self {
            HandleError::MutexLocked => "Mutex Locked",
            HandleError::MutexError => "Mutex Error",
            HandleError::AlreadyCancelled => "Already Cancelled",
            HandleError::AlreadyResolved => "Already Resolved",
            HandleError::ChannelClosed => "Channel Closed",
            HandleError::TxChannelClosed => "TX Channel Closed",
            HandleError::RxChannelClosed => "RX Channel Closed",
            HandleError::OneshotClosed => "Oneshot Channel Closed",
            HandleError::OneshotError => "Oneshot Error",
            HandleError::CallbackLocked => "Mutex Locked (CB Exists)",
            HandleError::CallbackRegistered => "CB Already Registered",
            HandleError::BodyConsumed => "Body already consumed",
        }
    }
}

/// A use of a one-shot handle that held `before`: it is left empty, and the use gives the item,
/// or `spent` where there was none.
pub open spec fn used_once<T>(before: Option<T>, after: Option<T>, r: Result<T, HandleError>, spent: HandleError) -> bool {
    &&& after is None
    &&& match before {
        Some(item) => r == Ok::<T, HandleError>(item),
        None => r == Err::<T, HandleError>(spent),
    }
}

/// Uses a one-shot handle: the item if it is still there, else `spent` (the error of a second
/// use).
pub fn use_once<T>(slot: &mut OnceSlot<T>, spent: HandleError) -> (r: Result<T, HandleError>)
    ensures
        used_once(old(slot)@, final(slot)@, r, spent),
{
    match slot.take() {
        Some(item) => Ok(item),
        None => Err(spent),
    }
}

/// A handle works once: after one use, a second use gives the error of a second use.
pub proof fn second_use_is_refused<T>(
    s0: Option<T>,
    s1: Option<T>,
    s2: Option<T>,
    r1: Result<T, HandleError>,
    r2: Result<T, HandleError>,
    spent: HandleError,
)
    requires
        used_once(s0, s1, r1, spent),
        used_once(s1, s2, r2, spent),
    ensures
        r2 == Err::<T, HandleError>(spent),
        s2 is None,
{
}

} // verus!
