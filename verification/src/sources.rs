//! What is particular to individual sources: the records their JSON APIs
//! return and the links built from them, the way some of them encode their
//! page lists, and the rules by which their page addresses and titles are
//! formed.
pub mod cartoonmad;
pub mod dmjz;
pub mod kuaikanmanhua;
pub mod lhscan;
pub mod luscious;
pub mod manben;
pub mod manhuadb;
pub mod manhuaren;
pub mod ninehentai;
pub mod one77pic;
pub mod qkmh5;
pub mod tvbsmh;
