//! Placing world rectangles on the screen relative to the camera.
use vstd::prelude::*;
use crate::rect::{Rect, RectModel, MAX_INT_VALUE, MIN_INT_VALUE};

verus! {

/// Where `object` appears on screen when the camera's top-left corner is at
/// `camera`'s: the object shifted by minus the camera's position, same size.
pub open spec fn aligned(camera: RectModel, object: RectModel) -> RectModel {
    RectModel::new(object.x - camera.x, object.y - camera.y, object.w, object.h)
}

/// The screen rectangle of `object` seen through `camera`.
pub fn aligned_rect(camera: Rect, object: Rect) -> (r: Rect)
    ensures
        r@ == aligned(camera@, object@),
{
    Rect::new(object.x() - camera.x(), object.y() - camera.y(), object.width(), object.height())
}

/// Seen through a camera at the origin, a rectangle stays where it is; in
/// general the screen rectangle keeps the object's size and lies at the
/// object's position minus the camera's, as far as that is in range.
pub proof fn lemma_aligned_translates(camera: RectModel, object: RectModel)
    requires
        camera.valid(),
        object.valid(),
    ensures
        aligned(camera, object).w == object.w,
        aligned(camera, object).h == object.h,
        aligned(camera, object).valid(),
        camera.x == 0 && camera.y == 0 ==> aligned(camera, object) == object,
        MIN_INT_VALUE <= object.x - camera.x <= MAX_INT_VALUE ==> aligned(camera, object).x
            == object.x - camera.x,
        MIN_INT_VALUE <= object.y - camera.y <= MAX_INT_VALUE ==> aligned(camera, object).y
            == object.y - camera.y,
{
}

} // verus!
