//! Four-channel color type.

use vstd::prelude::*;

verus! {

/// A color with red, green, blue and alpha channels.
#[derive(Debug)]
pub struct Color<T: Copy> {
    /// The red channel.
    pub red: T,
    /// The green channel.
    pub green: T,
    /// The blue channel.
    pub blue: T,
    /// The alpha channel.
    pub alpha: T,
}

impl<T: Copy> Clone for Color<T> {
    fn clone(&self) -> (r: Self)
        ensures
            r == *self,
    {
        *self
    }
}

impl<T: Copy> Copy for Color<T> {

}

impl<T: Copy> Color<T> {
    /// Create a new color from its components.
    pub fn new(red: T, green: T, blue: T, alpha: T) -> (r: Self)
        ensures
            r == (Color { red, green, blue, alpha }),
    {
        Color { red, green, blue, alpha }
    }

    /// Create a new color from an array of components: red, green, blue and
    /// alpha, in this order.
    pub fn from_array(array: [T; 4]) -> (r: Self)
        ensures
            r == (Color { red: array[0], green: array[1], blue: array[2], alpha: array[3] }),
    {
        Color { red: array[0], green: array[1], blue: array[2], alpha: array[3] }
    }

    /// Convert the color into an array of components: red, green, blue and
    /// alpha, in this order.
    pub fn into_array(self) -> (r: [T; 4])
        ensures
            r == [self.red, self.green, self.blue, self.alpha],
    {
        [self.red, self.green, self.blue, self.alpha]
    }

    /// Get the red component.
    pub fn red(&self) -> (r: T)
        ensures
            r == self.red,
    {
        self.red
    }

    /// Get the green component.
    pub fn green(&self) -> (r: T)
        ensures
            r == self.green,
    {
        self.green
    }

    /// Get the blue component.
    pub fn blue(&self) -> (r: T)
        ensures
            r == self.blue,
    {
        self.blue
    }

    /// Get the alpha component.
    pub fn alpha(&self) -> (r: T)
        ensures
            r == self.alpha,
    {
        self.alpha
    }
}

} // verus!
