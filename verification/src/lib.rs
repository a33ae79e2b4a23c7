//! A verified model of the method-invocation core of a small Java virtual
//! machine: descriptor parsing, operand-stack argument passing, frame
//! layout, virtual dispatch decisions and the native methods of
//! `java.lang.Object`, together with two `javap` instruction decoders.

pub mod signature;
pub mod oop;
pub mod native;
pub mod java_lang_object;
pub mod invoke;
pub mod sun_reflect_native_constructor_accessor_impl;
pub mod javap;
