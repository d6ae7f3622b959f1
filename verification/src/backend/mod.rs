pub mod llvm;
