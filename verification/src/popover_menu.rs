//! A menu that pops over what triggers it.
use vstd::prelude::*;

verus! {

/// How far a menu stands from its trigger, in pixels to the right and down.
#[derive(Clone, Copy, Debug, PartialEq, Eq, Structural)]
pub struct Offset {
    pub x: i32,
    pub y: i32,
}

/// A menu that shows a picker, with what triggers it and what is said of it.
pub struct PickerPopoverMenu<Picker, Trigger, Tooltip, Handle, Anchor, OnOpen> {
    pub picker: Picker,
    pub trigger: Trigger,
    pub tooltip: Tooltip,
    pub handle: Option<Handle>,
    pub anchor: Anchor,
    pub offset: Option<Offset>,
    pub on_open: Option<OnOpen>,
}

impl<Picker, Trigger, Tooltip, Handle, Anchor, OnOpen> PickerPopoverMenu<
    Picker,
    Trigger,
    Tooltip,
    Handle,
    Anchor,
    OnOpen,
> {
    /// A menu just above its trigger, without a handle, that opens without ado.
    pub fn new(picker: Picker, trigger: Trigger, tooltip: Tooltip, anchor: Anchor) -> (result: Self)
        ensures
            result == (PickerPopoverMenu {
                picker,
                trigger,
                tooltip,
                handle: None::<Handle>,
                anchor,
                offset: Some(Offset { x: 0, y: -2i32 }),
                on_open: None::<OnOpen>,
            }),
    {
        PickerPopoverMenu {
            picker,
            trigger,
            tooltip,
            handle: None,
            anchor,
            offset: Some(Offset { x: 0, y: -2 }),
            on_open: None,
        }
    }

    /// The menu with a handle.
    pub fn with_handle(self, handle: Handle) -> (result: Self)
        ensures
            result == (PickerPopoverMenu { handle: Some(handle), ..self }),
    {
        PickerPopoverMenu { handle: Some(handle), ..self }
    }

    /// The menu at another distance from its trigger.
    pub fn offset(self, offset: Offset) -> (result: Self)
        ensures
            result == (PickerPopoverMenu { offset: Some(offset), ..self }),
    {
        PickerPopoverMenu { offset: Some(offset), ..self }
    }

    /// The menu with something to do when it opens.
    pub fn on_open(self, on_open: OnOpen) -> (result: Self)
        ensures
            result == (PickerPopoverMenu { on_open: Some(on_open), ..self }),
    {
        PickerPopoverMenu { on_open: Some(on_open), ..self }
    }
}

} // verus!
